//! Visual sprites and images: the sprite and image arenas, the standalone
//! (lone and fog-of-war) sprite lists, the per-scanline sprite buckets,
//! and the sprite chunk's save and load paths.
//!
//! Sprites live in a bump arena and are saved in arena order, so their ids
//! are their slots; each sprite record carries its overlay image list
//! inline, each image tagged with the arena slot it must return to.
//! Standalone sprites are list-ordered like bullets; the lone and the
//! fog-of-war list share one allocation batch on load and are re-linked
//! with null boundaries between the two logical lists.

use vstd::prelude::*;

use crate::arena::RawVec;
use crate::bytes::{
    dec_i16_at,
    dec_i8_at,
    dec_u16_at,
    dec_u32_at,
    dec_u64_at,
    dec_u8_at,
    enc_i16,
    enc_i8,
    enc_u16,
    enc_u32,
    enc_u64,
    enc_u8,
    get_i16,
    get_i8,
    get_u16,
    get_u32,
    get_u64,
    get_u8,
    lemma_enc_dec,
    lemma_prefix_refl,
    lemma_prefix_trans,
    lemma_subrange_in_prefix,
    lemma_subrange_within,
    prefix_of,
    put_i16,
    put_i8,
    put_u16,
    put_u32,
    put_u64,
    put_u8,
};
use crate::chunk::{deflate_of, open_chunk, seal_chunk, spec_open_chunk};
use crate::entity::{
    dec_point_at,
    enc_point,
    get_point,
    lemma_dec_point_stable,
    put_point,
    Point,
    POINT_WIRE,
};
use crate::errors::{LoadError, SaveError};
use crate::linked::{collect_list, spec_walk, ListNode};
use crate::mapping::{
    dense_view,
    dir_view,
    lemma_dir_view,
    spec_id_seq,
    spec_pointer_seq,
    LoadMapping,
    SaveMapping,
};
use crate::units::{
    spec_unit_from_id,
    spec_unit_to_id,
    unit_from_id,
    unit_to_id,
    UNIT_LIMIT,
};

verus! {

/// Capacity of the sprite arena.
pub const SPRITE_LIMIT: usize = 200000;

/// Capacity of the image arena.
pub const IMAGE_LIMIT: usize = 400000;

/// Magic tag of the sprite chunk.
pub const SPRITE_SAVE_MAGIC: u16 = 0xffee;

/// Hard ceiling on the sprite chunk.
pub const SPRITE_SAVE_MAX_SIZE: u32 = 0x1000000;

/// Number of remap palettes in the host's table.
pub const REMAP_PALETTE_COUNT: u32 = 7;

/// A graphics resource of the host; this subsystem refers to one only by
/// its slot in the host's graphics table.
#[derive(Debug, Clone, Copy, PartialEq, Eq, Structural)]
pub struct GrpSprite {
    pub table_slot: u32,
}

/// A remap palette of the host; this subsystem refers to one only by its
/// slot in the host's palette table.
#[derive(Debug, Clone, Copy, PartialEq, Eq, Structural)]
pub struct RemapPalette {
    pub id: u32,
}

/// The sprite fields this subsystem added beside the host's own.
#[derive(Debug, Clone, Copy, PartialEq, Eq, Structural)]
pub struct SpriteExtension {
    pub spawn_order: u64,
}

/// A draw-parameter whose meaning the image's draw function selects: a
/// remap palette, a unit reference, or an opaque word.
#[derive(Debug, Clone, Copy, PartialEq, Eq, Structural)]
pub enum DrawfuncParam {
    Palette(Option<usize>),
    UnitRef(Option<usize>),
    Raw(u32),
}

/// Which parameter variant a draw function selects: function 9 remaps
/// through a palette, function 11 draws a unit's selection circle, every
/// other function treats the word as opaque.
pub open spec fn spec_param_matches(drawfunc: u8, p: DrawfuncParam) -> bool {
    if drawfunc == 9 {
        p is Palette
    } else if drawfunc == 11 {
        p is UnitRef
    } else {
        p is Raw
    }
}

pub open spec fn spec_param_refs_ok(p: DrawfuncParam) -> bool {
    match p {
        DrawfuncParam::Palette(r) => r is Some ==> r->Some_0 < REMAP_PALETTE_COUNT,
        DrawfuncParam::UnitRef(r) => r is Some ==> r->Some_0 < UNIT_LIMIT,
        DrawfuncParam::Raw(_) => true,
    }
}

/// A live image: one overlay of a sprite. `prev`/`next` are image arena
/// slots, `grp` a slot of the host's graphics table, `parent` the owning
/// sprite's slot.
#[derive(Debug, Clone, Copy, PartialEq, Eq, Structural)]
pub struct Image {
    pub prev: Option<usize>,
    pub next: Option<usize>,
    pub image_id: u16,
    pub drawfunc: u8,
    pub direction: u8,
    pub flags: u16,
    pub x_offset: i8,
    pub y_offset: i8,
    pub iscript: Iscript,
    pub frameset: u16,
    pub frame: u16,
    pub map_position: Point,
    pub screen_x: i16,
    pub screen_y: i16,
    pub grp_bound_0: i16,
    pub grp_bound_1: i16,
    pub grp_bound_2: i16,
    pub grp_bound_3: i16,
    pub grp: Option<usize>,
    pub drawfunc_param: DrawfuncParam,
    pub parent: Option<usize>,
}

impl ListNode for Image {
    open spec fn next_of(&self) -> Option<usize> {
        self.next
    }

    open spec fn prev_of(&self) -> Option<usize> {
        self.prev
    }

    fn next_link(&self) -> (r: Option<usize>) {
        self.next
    }
}

/// A live sprite. `prev`/`next` are sprite arena slots; the image list is
/// threaded through the image arena.
#[derive(Debug, Clone, Copy, PartialEq, Eq, Structural)]
pub struct Sprite {
    pub prev: Option<usize>,
    pub next: Option<usize>,
    pub sprite_id: u16,
    pub player: u8,
    pub selection_index: u8,
    pub visibility_mask: u8,
    pub elevation: u8,
    pub flags: u8,
    pub selection_flash_timer: u8,
    pub index: u16,
    pub width: u8,
    pub height: u8,
    pub position: Point,
    pub main_image: Option<usize>,
    pub first_overlay: Option<usize>,
    pub last_overlay: Option<usize>,
    pub extra: SpriteExtension,
}

impl ListNode for Sprite {
    open spec fn next_of(&self) -> Option<usize> {
        self.next
    }

    open spec fn prev_of(&self) -> Option<usize> {
        self.prev
    }

    fn next_link(&self) -> (r: Option<usize>) {
        self.next
    }
}

/// A live standalone sprite (lone or fog-of-war). `prev`/`next` are slots
/// of the standalone pool, `sprite` a sprite arena slot.
#[derive(Debug, Clone, Copy, PartialEq, Eq, Structural)]
pub struct LoneSprite {
    pub prev: Option<usize>,
    pub next: Option<usize>,
    pub value: u32,
    pub sprite: Option<usize>,
}

impl ListNode for LoneSprite {
    open spec fn next_of(&self) -> Option<usize> {
        self.next
    }

    open spec fn prev_of(&self) -> Option<usize> {
        self.prev
    }

    fn next_link(&self) -> (r: Option<usize>) {
        self.next
    }
}

/// Selection-visualization overlays are cosmetic and regenerated by the
/// host, so they are excluded from the image list before encoding.
pub open spec fn spec_is_selection_image(img: Image) -> bool {
    (0x231 <= img.image_id && img.image_id <= 0x23a) || img.drawfunc == 0xb
}

pub fn is_selection_image(img: &Image) -> (r: bool)
    ensures
        r == spec_is_selection_image(*img),
{
    (img.image_id >= 0x231 && img.image_id <= 0x23a) || img.drawfunc == 0xb
}

// ---------------------------------------------------------------------------
// Reference codecs for images.
// ---------------------------------------------------------------------------

/// The id of a graphics reference: 0 for null, the table slot + 1
/// otherwise; a slot outside the host's table is a corrupt reference.
pub open spec fn spec_grp_to_id(grp: Option<usize>, image_count: u32) -> Result<u16, SaveError> {
    match grp {
        None => Ok(0u16),
        Some(i) => if i < image_count && i < 0xffff {
            Ok((i + 1) as u16)
        } else {
            Err(SaveError::InvalidGrpPointer)
        },
    }
}

pub open spec fn spec_grp_from_id(v: u16, image_count: u32) -> Result<Option<usize>, LoadError> {
    if v == 0 {
        Ok(None)
    } else if v - 1 < image_count {
        Ok(Some((v - 1) as usize))
    } else {
        Err(LoadError::Corrupted(v as u32))
    }
}

pub fn grp_to_id(grp: Option<usize>, image_count: u32) -> (r: Result<u16, SaveError>)
    ensures
        r == spec_grp_to_id(grp, image_count),
{
    match grp {
        None => Ok(0),
        Some(i) => {
            if i < image_count as usize && i < 0xffff {
                Ok((i + 1) as u16)
            } else {
                Err(SaveError::InvalidGrpPointer)
            }
        },
    }
}

pub fn grp_from_id(v: u16, image_count: u32) -> (r: Result<Option<usize>, LoadError>)
    ensures
        r == spec_grp_from_id(v, image_count),
{
    if v == 0 {
        Ok(None)
    } else if ((v - 1) as u32) < image_count {
        Ok(Some((v - 1) as usize))
    } else {
        Err(LoadError::Corrupted(v as u32))
    }
}

/// The word a draw parameter serializes to: a palette index + 1, a unit
/// id, or the raw word, as the draw function dictates.
pub open spec fn spec_param_to_word(p: DrawfuncParam) -> Result<u32, SaveError> {
    match p {
        DrawfuncParam::Palette(r) => match r {
            None => Ok(0u32),
            Some(i) => if i < REMAP_PALETTE_COUNT {
                Ok((i + 1) as u32)
            } else {
                Err(SaveError::InvalidRemapPalette)
            },
        },
        DrawfuncParam::UnitRef(r) => Ok(spec_unit_to_id(r) as u32),
        DrawfuncParam::Raw(w) => Ok(w),
    }
}

pub open spec fn spec_param_from_word(drawfunc: u8, w: u32) -> Result<DrawfuncParam, LoadError> {
    if drawfunc == 9 {
        if w == 0 {
            Ok(DrawfuncParam::Palette(None))
        } else if w - 1 < REMAP_PALETTE_COUNT {
            Ok(DrawfuncParam::Palette(Some((w - 1) as usize)))
        } else {
            Err(LoadError::Corrupted(w))
        }
    } else if drawfunc == 11 {
        let u = spec_unit_from_id32_word(w);
        if u is Err {
            Err(u->Err_0)
        } else {
            Ok(DrawfuncParam::UnitRef(u->Ok_0))
        }
    } else {
        Ok(DrawfuncParam::Raw(w))
    }
}

/// A selection-circle parameter is a unit id written as one word; only
/// the low id range is valid.
pub open spec fn spec_unit_from_id32_word(w: u32) -> Result<Option<usize>, LoadError> {
    if w == 0 {
        Ok(None)
    } else if w <= UNIT_LIMIT as u32 {
        Ok(Some((w - 1) as usize))
    } else {
        Err(LoadError::Corrupted(w))
    }
}

pub fn param_to_word(p: &DrawfuncParam) -> (r: Result<u32, SaveError>)
    requires
        p matches DrawfuncParam::UnitRef(u) ==> (u is Some ==> u->Some_0 < UNIT_LIMIT),
    ensures
        r == spec_param_to_word(*p),
{
    match p {
        DrawfuncParam::Palette(r) => match r {
            None => Ok(0),
            Some(i) => {
                if *i < REMAP_PALETTE_COUNT as usize {
                    Ok((*i + 1) as u32)
                } else {
                    Err(SaveError::InvalidRemapPalette)
                }
            },
        },
        DrawfuncParam::UnitRef(r) => Ok(unit_to_id(*r) as u32),
        DrawfuncParam::Raw(w) => Ok(*w),
    }
}

pub fn param_from_word(drawfunc: u8, w: u32) -> (r: Result<DrawfuncParam, LoadError>)
    ensures
        r == spec_param_from_word(drawfunc, w),
{
    if drawfunc == 9 {
        if w == 0 {
            Ok(DrawfuncParam::Palette(None))
        } else if w - 1 < REMAP_PALETTE_COUNT {
            Ok(DrawfuncParam::Palette(Some((w - 1) as usize)))
        } else {
            Err(LoadError::Corrupted(w))
        }
    } else if drawfunc == 11 {
        if w == 0 {
            Ok(DrawfuncParam::UnitRef(None))
        } else if w <= UNIT_LIMIT as u32 {
            Ok(DrawfuncParam::UnitRef(Some((w - 1) as usize)))
        } else {
            Err(LoadError::Corrupted(w))
        }
    } else {
        Ok(DrawfuncParam::Raw(w))
    }
}

/// The draw parameter round-trips for every draw-function class.
pub proof fn lemma_param_round_trip(drawfunc: u8, p: DrawfuncParam)
    requires
        spec_param_refs_ok(p),
        spec_param_matches(drawfunc, p),
        spec_param_to_word(p) is Ok,
    ensures
        spec_param_from_word(drawfunc, spec_param_to_word(p)->Ok_0) == Ok::<
            DrawfuncParam,
            LoadError,
        >(p),
{
}

/// Graphics references round-trip within the host table.
pub proof fn lemma_grp_round_trip(grp: Option<usize>, image_count: u32)
    requires
        spec_grp_to_id(grp, image_count) is Ok,
    ensures
        spec_grp_from_id(spec_grp_to_id(grp, image_count)->Ok_0, image_count) == Ok::<
            Option<usize>,
            LoadError,
        >(grp),
{
}
#[derive(Debug, Clone, Copy, PartialEq, Eq, Structural)]
pub struct Iscript {
    pub header: u16,
    pub pos: u16,
    pub return_pos: u16,
    pub animation_id: u8,
    pub wait: u8,
}

pub const ISCRIPT_WIRE: usize = 8;

pub open spec fn dec_iscript_at(s: Seq<u8>, pos: int) -> Iscript {
    Iscript {
        header: dec_u16_at(s, pos),
        pos: dec_u16_at(s, pos + 2),
        return_pos: dec_u16_at(s, pos + 4),
        animation_id: dec_u8_at(s, pos + 6),
        wait: dec_u8_at(s, pos + 7),
    }
}

pub proof fn lemma_dec_iscript_stable(a: Seq<u8>, b: Seq<u8>, pos: int)
    requires
        0 <= pos,
        pos + ISCRIPT_WIRE <= a.len(),
        pos + ISCRIPT_WIRE <= b.len(),
        b.subrange(pos, pos + ISCRIPT_WIRE) == a.subrange(pos, pos + ISCRIPT_WIRE),
    ensures
        dec_iscript_at(b, pos) == dec_iscript_at(a, pos),
{
    lemma_subrange_within(a, b, pos, pos + ISCRIPT_WIRE, pos + 0, pos + 0 + 2);
    lemma_subrange_within(a, b, pos, pos + ISCRIPT_WIRE, pos + 2, pos + 2 + 2);
    lemma_subrange_within(a, b, pos, pos + ISCRIPT_WIRE, pos + 4, pos + 4 + 2);
    assert(b[pos + 6] == a[pos + 6]) by {
        assert(b.subrange(pos, pos + ISCRIPT_WIRE)[6] == b[pos + 6]);
        assert(a.subrange(pos, pos + ISCRIPT_WIRE)[6] == a[pos + 6]);
    }
    assert(b[pos + 7] == a[pos + 7]) by {
        assert(b.subrange(pos, pos + ISCRIPT_WIRE)[7] == b[pos + 7]);
        assert(a.subrange(pos, pos + ISCRIPT_WIRE)[7] == a[pos + 7]);
    }
}

pub open spec fn enc_iscript(v: Iscript) -> Seq<u8> {
    enc_u16(v.header) + enc_u16(v.pos) + enc_u16(v.return_pos) + enc_u8(v.animation_id) + enc_u8(
        v.wait,
    )
}

pub fn put_iscript(buf: &mut Vec<u8>, v: &Iscript)
    ensures
        final(buf)@.len() == old(buf)@.len() + ISCRIPT_WIRE,
        prefix_of(old(buf)@, final(buf)@),
        dec_iscript_at(final(buf)@, old(buf)@.len() as int) == *v,
        final(buf)@ == old(buf)@ + enc_iscript(*v),
{
    let ghost p = buf@.len() as int;
    let ghost s0 = buf@;
    put_u16(buf, v.header);
    let ghost s1 = buf@;
    put_u16(buf, v.pos);
    let ghost s2 = buf@;
    put_u16(buf, v.return_pos);
    let ghost s3 = buf@;
    put_u8(buf, v.animation_id);
    let ghost s4 = buf@;
    put_u8(buf, v.wait);
    let ghost s5 = buf@;
    proof {
        lemma_prefix_refl(buf@);
        lemma_prefix_trans(s4, s5, buf@);
        lemma_prefix_trans(s3, s4, buf@);
        lemma_prefix_trans(s2, s3, buf@);
        lemma_prefix_trans(s1, s2, buf@);
        lemma_prefix_trans(s0, s1, buf@);
        lemma_subrange_in_prefix(s1, buf@, p, p + 2);
        lemma_subrange_in_prefix(s2, buf@, p + 2, p + 2 + 2);
        lemma_subrange_in_prefix(s3, buf@, p + 4, p + 4 + 2);
        assert(buf@[p + 6] == s4[p + 6]) by {
            assert(buf@.subrange(0, s4.len() as int)[p + 6] == buf@[p + 6]);
            assert(buf@.subrange(0, s4.len() as int)[p + 6] == s4[p + 6]);
        }
        assert(buf@[p + 7] == s5[p + 7]) by {
            assert(buf@.subrange(0, s5.len() as int)[p + 7] == buf@[p + 7]);
            assert(buf@.subrange(0, s5.len() as int)[p + 7] == s5[p + 7]);
        }
        assert(prefix_of(s0, buf@));
        assert(dec_iscript_at(buf@, p) == *v);
        lemma_enc_dec();
        assert(buf@ =~= s0 + enc_iscript(*v));
    }
}

pub fn get_iscript(data: &Vec<u8>, pos: usize) -> (r: Iscript)
    requires
        pos + ISCRIPT_WIRE <= data@.len(),
    ensures
        r == dec_iscript_at(data@, pos as int),
{
    let _n = data.len();
    Iscript {
        header: get_u16(data, pos),
        pos: get_u16(data, pos + 2),
        return_pos: get_u16(data, pos + 4),
        animation_id: get_u8(data, pos + 6),
        wait: get_u8(data, pos + 7),
    }
}

#[derive(Debug, Clone, Copy, PartialEq, Eq, Structural)]
pub struct ImageSer {
    pub slot: u32,
    pub image_id: u16,
    pub drawfunc: u8,
    pub direction: u8,
    pub flags: u16,
    pub x_offset: i8,
    pub y_offset: i8,
    pub iscript: Iscript,
    pub frameset: u16,
    pub frame: u16,
    pub map_position: Point,
    pub screen_x: i16,
    pub screen_y: i16,
    pub grp_bound_0: i16,
    pub grp_bound_1: i16,
    pub grp_bound_2: i16,
    pub grp_bound_3: i16,
    pub grp: u16,
    pub drawfunc_param: u32,
}

pub const IMAGE_SER_WIRE: usize = 46;

pub open spec fn dec_image_ser_at(s: Seq<u8>, pos: int) -> ImageSer {
    ImageSer {
        slot: dec_u32_at(s, pos),
        image_id: dec_u16_at(s, pos + 4),
        drawfunc: dec_u8_at(s, pos + 6),
        direction: dec_u8_at(s, pos + 7),
        flags: dec_u16_at(s, pos + 8),
        x_offset: dec_i8_at(s, pos + 10),
        y_offset: dec_i8_at(s, pos + 11),
        iscript: dec_iscript_at(s, pos + 12),
        frameset: dec_u16_at(s, pos + 20),
        frame: dec_u16_at(s, pos + 22),
        map_position: dec_point_at(s, pos + 24),
        screen_x: dec_i16_at(s, pos + 28),
        screen_y: dec_i16_at(s, pos + 30),
        grp_bound_0: dec_i16_at(s, pos + 32),
        grp_bound_1: dec_i16_at(s, pos + 34),
        grp_bound_2: dec_i16_at(s, pos + 36),
        grp_bound_3: dec_i16_at(s, pos + 38),
        grp: dec_u16_at(s, pos + 40),
        drawfunc_param: dec_u32_at(s, pos + 42),
    }
}

pub proof fn lemma_dec_image_ser_stable(a: Seq<u8>, b: Seq<u8>, pos: int)
    requires
        0 <= pos,
        pos + IMAGE_SER_WIRE <= a.len(),
        pos + IMAGE_SER_WIRE <= b.len(),
        b.subrange(pos, pos + IMAGE_SER_WIRE) == a.subrange(pos, pos + IMAGE_SER_WIRE),
    ensures
        dec_image_ser_at(b, pos) == dec_image_ser_at(a, pos),
{
    lemma_subrange_within(a, b, pos, pos + IMAGE_SER_WIRE, pos + 0, pos + 0 + 4);
    lemma_subrange_within(a, b, pos, pos + IMAGE_SER_WIRE, pos + 4, pos + 4 + 2);
    assert(b[pos + 6] == a[pos + 6]) by {
        assert(b.subrange(pos, pos + IMAGE_SER_WIRE)[6] == b[pos + 6]);
        assert(a.subrange(pos, pos + IMAGE_SER_WIRE)[6] == a[pos + 6]);
    }
    assert(b[pos + 7] == a[pos + 7]) by {
        assert(b.subrange(pos, pos + IMAGE_SER_WIRE)[7] == b[pos + 7]);
        assert(a.subrange(pos, pos + IMAGE_SER_WIRE)[7] == a[pos + 7]);
    }
    lemma_subrange_within(a, b, pos, pos + IMAGE_SER_WIRE, pos + 8, pos + 8 + 2);
    assert(b[pos + 10] == a[pos + 10]) by {
        assert(b.subrange(pos, pos + IMAGE_SER_WIRE)[10] == b[pos + 10]);
        assert(a.subrange(pos, pos + IMAGE_SER_WIRE)[10] == a[pos + 10]);
    }
    assert(b[pos + 11] == a[pos + 11]) by {
        assert(b.subrange(pos, pos + IMAGE_SER_WIRE)[11] == b[pos + 11]);
        assert(a.subrange(pos, pos + IMAGE_SER_WIRE)[11] == a[pos + 11]);
    }
    lemma_subrange_within(a, b, pos, pos + IMAGE_SER_WIRE, pos + 12, pos + 12 + 8);
    lemma_dec_iscript_stable(a, b, pos + 12);
    lemma_subrange_within(a, b, pos, pos + IMAGE_SER_WIRE, pos + 20, pos + 20 + 2);
    lemma_subrange_within(a, b, pos, pos + IMAGE_SER_WIRE, pos + 22, pos + 22 + 2);
    lemma_subrange_within(a, b, pos, pos + IMAGE_SER_WIRE, pos + 24, pos + 24 + 4);
    lemma_dec_point_stable(a, b, pos + 24);
    lemma_subrange_within(a, b, pos, pos + IMAGE_SER_WIRE, pos + 28, pos + 28 + 2);
    lemma_subrange_within(a, b, pos, pos + IMAGE_SER_WIRE, pos + 30, pos + 30 + 2);
    lemma_subrange_within(a, b, pos, pos + IMAGE_SER_WIRE, pos + 32, pos + 32 + 2);
    lemma_subrange_within(a, b, pos, pos + IMAGE_SER_WIRE, pos + 34, pos + 34 + 2);
    lemma_subrange_within(a, b, pos, pos + IMAGE_SER_WIRE, pos + 36, pos + 36 + 2);
    lemma_subrange_within(a, b, pos, pos + IMAGE_SER_WIRE, pos + 38, pos + 38 + 2);
    lemma_subrange_within(a, b, pos, pos + IMAGE_SER_WIRE, pos + 40, pos + 40 + 2);
    lemma_subrange_within(a, b, pos, pos + IMAGE_SER_WIRE, pos + 42, pos + 42 + 4);
}

pub open spec fn enc_image_ser(v: ImageSer) -> Seq<u8> {
    enc_u32(v.slot) + enc_u16(v.image_id) + enc_u8(v.drawfunc) + enc_u8(v.direction) + enc_u16(
        v.flags,
    ) + enc_i8(v.x_offset) + enc_i8(v.y_offset) + enc_iscript(v.iscript) + enc_u16(v.frameset)
        + enc_u16(v.frame) + enc_point(v.map_position) + enc_i16(v.screen_x) + enc_i16(v.screen_y)
        + enc_i16(v.grp_bound_0) + enc_i16(v.grp_bound_1) + enc_i16(v.grp_bound_2) + enc_i16(
        v.grp_bound_3,
    ) + enc_u16(v.grp) + enc_u32(v.drawfunc_param)
}

pub fn put_image_ser(buf: &mut Vec<u8>, v: &ImageSer)
    ensures
        final(buf)@.len() == old(buf)@.len() + IMAGE_SER_WIRE,
        prefix_of(old(buf)@, final(buf)@),
        dec_image_ser_at(final(buf)@, old(buf)@.len() as int) == *v,
        final(buf)@ == old(buf)@ + enc_image_ser(*v),
{
    let ghost p = buf@.len() as int;
    let ghost s0 = buf@;
    put_u32(buf, v.slot);
    let ghost s1 = buf@;
    put_u16(buf, v.image_id);
    let ghost s2 = buf@;
    put_u8(buf, v.drawfunc);
    let ghost s3 = buf@;
    put_u8(buf, v.direction);
    let ghost s4 = buf@;
    put_u16(buf, v.flags);
    let ghost s5 = buf@;
    put_i8(buf, v.x_offset);
    let ghost s6 = buf@;
    put_i8(buf, v.y_offset);
    let ghost s7 = buf@;
    put_iscript(buf, &v.iscript);
    let ghost s8 = buf@;
    put_u16(buf, v.frameset);
    let ghost s9 = buf@;
    put_u16(buf, v.frame);
    let ghost s10 = buf@;
    put_point(buf, &v.map_position);
    let ghost s11 = buf@;
    put_i16(buf, v.screen_x);
    let ghost s12 = buf@;
    put_i16(buf, v.screen_y);
    let ghost s13 = buf@;
    put_i16(buf, v.grp_bound_0);
    let ghost s14 = buf@;
    put_i16(buf, v.grp_bound_1);
    let ghost s15 = buf@;
    put_i16(buf, v.grp_bound_2);
    let ghost s16 = buf@;
    put_i16(buf, v.grp_bound_3);
    let ghost s17 = buf@;
    put_u16(buf, v.grp);
    let ghost s18 = buf@;
    put_u32(buf, v.drawfunc_param);
    let ghost s19 = buf@;
    proof {
        lemma_prefix_refl(buf@);
        lemma_prefix_trans(s18, s19, buf@);
        lemma_prefix_trans(s17, s18, buf@);
        lemma_prefix_trans(s16, s17, buf@);
        lemma_prefix_trans(s15, s16, buf@);
        lemma_prefix_trans(s14, s15, buf@);
        lemma_prefix_trans(s13, s14, buf@);
        lemma_prefix_trans(s12, s13, buf@);
        lemma_prefix_trans(s11, s12, buf@);
        lemma_prefix_trans(s10, s11, buf@);
        lemma_prefix_trans(s9, s10, buf@);
        lemma_prefix_trans(s8, s9, buf@);
        lemma_prefix_trans(s7, s8, buf@);
        lemma_prefix_trans(s6, s7, buf@);
        lemma_prefix_trans(s5, s6, buf@);
        lemma_prefix_trans(s4, s5, buf@);
        lemma_prefix_trans(s3, s4, buf@);
        lemma_prefix_trans(s2, s3, buf@);
        lemma_prefix_trans(s1, s2, buf@);
        lemma_prefix_trans(s0, s1, buf@);
        lemma_subrange_in_prefix(s1, buf@, p, p + 4);
        lemma_subrange_in_prefix(s2, buf@, p + 4, p + 4 + 2);
        assert(buf@[p + 6] == s3[p + 6]) by {
            assert(buf@.subrange(0, s3.len() as int)[p + 6] == buf@[p + 6]);
            assert(buf@.subrange(0, s3.len() as int)[p + 6] == s3[p + 6]);
        }
        assert(buf@[p + 7] == s4[p + 7]) by {
            assert(buf@.subrange(0, s4.len() as int)[p + 7] == buf@[p + 7]);
            assert(buf@.subrange(0, s4.len() as int)[p + 7] == s4[p + 7]);
        }
        lemma_subrange_in_prefix(s5, buf@, p + 8, p + 8 + 2);
        assert(buf@[p + 10] == s6[p + 10]) by {
            assert(buf@.subrange(0, s6.len() as int)[p + 10] == buf@[p + 10]);
            assert(buf@.subrange(0, s6.len() as int)[p + 10] == s6[p + 10]);
        }
        assert(buf@[p + 11] == s7[p + 11]) by {
            assert(buf@.subrange(0, s7.len() as int)[p + 11] == buf@[p + 11]);
            assert(buf@.subrange(0, s7.len() as int)[p + 11] == s7[p + 11]);
        }
        lemma_subrange_in_prefix(s8, buf@, p + 12, p + 12 + 8);
        lemma_dec_iscript_stable(s8, buf@, p + 12);
        lemma_subrange_in_prefix(s9, buf@, p + 20, p + 20 + 2);
        lemma_subrange_in_prefix(s10, buf@, p + 22, p + 22 + 2);
        lemma_subrange_in_prefix(s11, buf@, p + 24, p + 24 + 4);
        lemma_dec_point_stable(s11, buf@, p + 24);
        lemma_subrange_in_prefix(s12, buf@, p + 28, p + 28 + 2);
        lemma_subrange_in_prefix(s13, buf@, p + 30, p + 30 + 2);
        lemma_subrange_in_prefix(s14, buf@, p + 32, p + 32 + 2);
        lemma_subrange_in_prefix(s15, buf@, p + 34, p + 34 + 2);
        lemma_subrange_in_prefix(s16, buf@, p + 36, p + 36 + 2);
        lemma_subrange_in_prefix(s17, buf@, p + 38, p + 38 + 2);
        lemma_subrange_in_prefix(s18, buf@, p + 40, p + 40 + 2);
        lemma_subrange_in_prefix(s19, buf@, p + 42, p + 42 + 4);
        assert(prefix_of(s0, buf@));
        assert(dec_image_ser_at(buf@, p) == *v);
        lemma_enc_dec();
        assert(buf@ =~= s0 + enc_image_ser(*v));
    }
}

pub fn get_image_ser(data: &Vec<u8>, pos: usize) -> (r: ImageSer)
    requires
        pos + IMAGE_SER_WIRE <= data@.len(),
    ensures
        r == dec_image_ser_at(data@, pos as int),
{
    let _n = data.len();
    ImageSer {
        slot: get_u32(data, pos),
        image_id: get_u16(data, pos + 4),
        drawfunc: get_u8(data, pos + 6),
        direction: get_u8(data, pos + 7),
        flags: get_u16(data, pos + 8),
        x_offset: get_i8(data, pos + 10),
        y_offset: get_i8(data, pos + 11),
        iscript: get_iscript(data, pos + 12),
        frameset: get_u16(data, pos + 20),
        frame: get_u16(data, pos + 22),
        map_position: get_point(data, pos + 24),
        screen_x: get_i16(data, pos + 28),
        screen_y: get_i16(data, pos + 30),
        grp_bound_0: get_i16(data, pos + 32),
        grp_bound_1: get_i16(data, pos + 34),
        grp_bound_2: get_i16(data, pos + 36),
        grp_bound_3: get_i16(data, pos + 38),
        grp: get_u16(data, pos + 40),
        drawfunc_param: get_u32(data, pos + 42),
    }
}

#[derive(Debug, Clone, Copy, PartialEq, Eq, Structural)]
pub struct SpriteHeadSer {
    pub prev: u32,
    pub next: u32,
    pub sprite_id: u16,
    pub player: u8,
    pub selection_index: u8,
    pub visibility_mask: u8,
    pub elevation: u8,
    pub flags: u8,
    pub selection_flash_timer: u8,
    pub index: u16,
    pub width: u8,
    pub height: u8,
    pub position: Point,
    pub main_image_id: u32,
    pub spawn_order: u64,
    pub image_count: u32,
}

pub const SPRITE_HEAD_WIRE: usize = 40;

pub open spec fn dec_sprite_head_at(s: Seq<u8>, pos: int) -> SpriteHeadSer {
    SpriteHeadSer {
        prev: dec_u32_at(s, pos),
        next: dec_u32_at(s, pos + 4),
        sprite_id: dec_u16_at(s, pos + 8),
        player: dec_u8_at(s, pos + 10),
        selection_index: dec_u8_at(s, pos + 11),
        visibility_mask: dec_u8_at(s, pos + 12),
        elevation: dec_u8_at(s, pos + 13),
        flags: dec_u8_at(s, pos + 14),
        selection_flash_timer: dec_u8_at(s, pos + 15),
        index: dec_u16_at(s, pos + 16),
        width: dec_u8_at(s, pos + 18),
        height: dec_u8_at(s, pos + 19),
        position: dec_point_at(s, pos + 20),
        main_image_id: dec_u32_at(s, pos + 24),
        spawn_order: dec_u64_at(s, pos + 28),
        image_count: dec_u32_at(s, pos + 36),
    }
}

pub proof fn lemma_dec_sprite_head_stable(a: Seq<u8>, b: Seq<u8>, pos: int)
    requires
        0 <= pos,
        pos + SPRITE_HEAD_WIRE <= a.len(),
        pos + SPRITE_HEAD_WIRE <= b.len(),
        b.subrange(pos, pos + SPRITE_HEAD_WIRE) == a.subrange(pos, pos + SPRITE_HEAD_WIRE),
    ensures
        dec_sprite_head_at(b, pos) == dec_sprite_head_at(a, pos),
{
    lemma_subrange_within(a, b, pos, pos + SPRITE_HEAD_WIRE, pos + 0, pos + 0 + 4);
    lemma_subrange_within(a, b, pos, pos + SPRITE_HEAD_WIRE, pos + 4, pos + 4 + 4);
    lemma_subrange_within(a, b, pos, pos + SPRITE_HEAD_WIRE, pos + 8, pos + 8 + 2);
    assert(b[pos + 10] == a[pos + 10]) by {
        assert(b.subrange(pos, pos + SPRITE_HEAD_WIRE)[10] == b[pos + 10]);
        assert(a.subrange(pos, pos + SPRITE_HEAD_WIRE)[10] == a[pos + 10]);
    }
    assert(b[pos + 11] == a[pos + 11]) by {
        assert(b.subrange(pos, pos + SPRITE_HEAD_WIRE)[11] == b[pos + 11]);
        assert(a.subrange(pos, pos + SPRITE_HEAD_WIRE)[11] == a[pos + 11]);
    }
    assert(b[pos + 12] == a[pos + 12]) by {
        assert(b.subrange(pos, pos + SPRITE_HEAD_WIRE)[12] == b[pos + 12]);
        assert(a.subrange(pos, pos + SPRITE_HEAD_WIRE)[12] == a[pos + 12]);
    }
    assert(b[pos + 13] == a[pos + 13]) by {
        assert(b.subrange(pos, pos + SPRITE_HEAD_WIRE)[13] == b[pos + 13]);
        assert(a.subrange(pos, pos + SPRITE_HEAD_WIRE)[13] == a[pos + 13]);
    }
    assert(b[pos + 14] == a[pos + 14]) by {
        assert(b.subrange(pos, pos + SPRITE_HEAD_WIRE)[14] == b[pos + 14]);
        assert(a.subrange(pos, pos + SPRITE_HEAD_WIRE)[14] == a[pos + 14]);
    }
    assert(b[pos + 15] == a[pos + 15]) by {
        assert(b.subrange(pos, pos + SPRITE_HEAD_WIRE)[15] == b[pos + 15]);
        assert(a.subrange(pos, pos + SPRITE_HEAD_WIRE)[15] == a[pos + 15]);
    }
    lemma_subrange_within(a, b, pos, pos + SPRITE_HEAD_WIRE, pos + 16, pos + 16 + 2);
    assert(b[pos + 18] == a[pos + 18]) by {
        assert(b.subrange(pos, pos + SPRITE_HEAD_WIRE)[18] == b[pos + 18]);
        assert(a.subrange(pos, pos + SPRITE_HEAD_WIRE)[18] == a[pos + 18]);
    }
    assert(b[pos + 19] == a[pos + 19]) by {
        assert(b.subrange(pos, pos + SPRITE_HEAD_WIRE)[19] == b[pos + 19]);
        assert(a.subrange(pos, pos + SPRITE_HEAD_WIRE)[19] == a[pos + 19]);
    }
    lemma_subrange_within(a, b, pos, pos + SPRITE_HEAD_WIRE, pos + 20, pos + 20 + 4);
    lemma_dec_point_stable(a, b, pos + 20);
    lemma_subrange_within(a, b, pos, pos + SPRITE_HEAD_WIRE, pos + 24, pos + 24 + 4);
    lemma_subrange_within(a, b, pos, pos + SPRITE_HEAD_WIRE, pos + 28, pos + 28 + 8);
    lemma_subrange_within(a, b, pos, pos + SPRITE_HEAD_WIRE, pos + 36, pos + 36 + 4);
}

pub open spec fn enc_sprite_head(v: SpriteHeadSer) -> Seq<u8> {
    enc_u32(v.prev) + enc_u32(v.next) + enc_u16(v.sprite_id) + enc_u8(v.player) + enc_u8(
        v.selection_index,
    ) + enc_u8(v.visibility_mask) + enc_u8(v.elevation) + enc_u8(v.flags) + enc_u8(
        v.selection_flash_timer,
    ) + enc_u16(v.index) + enc_u8(v.width) + enc_u8(v.height) + enc_point(v.position) + enc_u32(
        v.main_image_id,
    ) + enc_u64(v.spawn_order) + enc_u32(v.image_count)
}

pub fn put_sprite_head(buf: &mut Vec<u8>, v: &SpriteHeadSer)
    ensures
        final(buf)@.len() == old(buf)@.len() + SPRITE_HEAD_WIRE,
        prefix_of(old(buf)@, final(buf)@),
        dec_sprite_head_at(final(buf)@, old(buf)@.len() as int) == *v,
        final(buf)@ == old(buf)@ + enc_sprite_head(*v),
{
    let ghost p = buf@.len() as int;
    let ghost s0 = buf@;
    put_u32(buf, v.prev);
    let ghost s1 = buf@;
    put_u32(buf, v.next);
    let ghost s2 = buf@;
    put_u16(buf, v.sprite_id);
    let ghost s3 = buf@;
    put_u8(buf, v.player);
    let ghost s4 = buf@;
    put_u8(buf, v.selection_index);
    let ghost s5 = buf@;
    put_u8(buf, v.visibility_mask);
    let ghost s6 = buf@;
    put_u8(buf, v.elevation);
    let ghost s7 = buf@;
    put_u8(buf, v.flags);
    let ghost s8 = buf@;
    put_u8(buf, v.selection_flash_timer);
    let ghost s9 = buf@;
    put_u16(buf, v.index);
    let ghost s10 = buf@;
    put_u8(buf, v.width);
    let ghost s11 = buf@;
    put_u8(buf, v.height);
    let ghost s12 = buf@;
    put_point(buf, &v.position);
    let ghost s13 = buf@;
    put_u32(buf, v.main_image_id);
    let ghost s14 = buf@;
    put_u64(buf, v.spawn_order);
    let ghost s15 = buf@;
    put_u32(buf, v.image_count);
    let ghost s16 = buf@;
    proof {
        lemma_prefix_refl(buf@);
        lemma_prefix_trans(s15, s16, buf@);
        lemma_prefix_trans(s14, s15, buf@);
        lemma_prefix_trans(s13, s14, buf@);
        lemma_prefix_trans(s12, s13, buf@);
        lemma_prefix_trans(s11, s12, buf@);
        lemma_prefix_trans(s10, s11, buf@);
        lemma_prefix_trans(s9, s10, buf@);
        lemma_prefix_trans(s8, s9, buf@);
        lemma_prefix_trans(s7, s8, buf@);
        lemma_prefix_trans(s6, s7, buf@);
        lemma_prefix_trans(s5, s6, buf@);
        lemma_prefix_trans(s4, s5, buf@);
        lemma_prefix_trans(s3, s4, buf@);
        lemma_prefix_trans(s2, s3, buf@);
        lemma_prefix_trans(s1, s2, buf@);
        lemma_prefix_trans(s0, s1, buf@);
        lemma_subrange_in_prefix(s1, buf@, p, p + 4);
        lemma_subrange_in_prefix(s2, buf@, p + 4, p + 4 + 4);
        lemma_subrange_in_prefix(s3, buf@, p + 8, p + 8 + 2);
        assert(buf@[p + 10] == s4[p + 10]) by {
            assert(buf@.subrange(0, s4.len() as int)[p + 10] == buf@[p + 10]);
            assert(buf@.subrange(0, s4.len() as int)[p + 10] == s4[p + 10]);
        }
        assert(buf@[p + 11] == s5[p + 11]) by {
            assert(buf@.subrange(0, s5.len() as int)[p + 11] == buf@[p + 11]);
            assert(buf@.subrange(0, s5.len() as int)[p + 11] == s5[p + 11]);
        }
        assert(buf@[p + 12] == s6[p + 12]) by {
            assert(buf@.subrange(0, s6.len() as int)[p + 12] == buf@[p + 12]);
            assert(buf@.subrange(0, s6.len() as int)[p + 12] == s6[p + 12]);
        }
        assert(buf@[p + 13] == s7[p + 13]) by {
            assert(buf@.subrange(0, s7.len() as int)[p + 13] == buf@[p + 13]);
            assert(buf@.subrange(0, s7.len() as int)[p + 13] == s7[p + 13]);
        }
        assert(buf@[p + 14] == s8[p + 14]) by {
            assert(buf@.subrange(0, s8.len() as int)[p + 14] == buf@[p + 14]);
            assert(buf@.subrange(0, s8.len() as int)[p + 14] == s8[p + 14]);
        }
        assert(buf@[p + 15] == s9[p + 15]) by {
            assert(buf@.subrange(0, s9.len() as int)[p + 15] == buf@[p + 15]);
            assert(buf@.subrange(0, s9.len() as int)[p + 15] == s9[p + 15]);
        }
        lemma_subrange_in_prefix(s10, buf@, p + 16, p + 16 + 2);
        assert(buf@[p + 18] == s11[p + 18]) by {
            assert(buf@.subrange(0, s11.len() as int)[p + 18] == buf@[p + 18]);
            assert(buf@.subrange(0, s11.len() as int)[p + 18] == s11[p + 18]);
        }
        assert(buf@[p + 19] == s12[p + 19]) by {
            assert(buf@.subrange(0, s12.len() as int)[p + 19] == buf@[p + 19]);
            assert(buf@.subrange(0, s12.len() as int)[p + 19] == s12[p + 19]);
        }
        lemma_subrange_in_prefix(s13, buf@, p + 20, p + 20 + 4);
        lemma_dec_point_stable(s13, buf@, p + 20);
        lemma_subrange_in_prefix(s14, buf@, p + 24, p + 24 + 4);
        lemma_subrange_in_prefix(s15, buf@, p + 28, p + 28 + 8);
        lemma_subrange_in_prefix(s16, buf@, p + 36, p + 36 + 4);
        assert(prefix_of(s0, buf@));
        assert(dec_sprite_head_at(buf@, p) == *v);
        lemma_enc_dec();
        assert(buf@ =~= s0 + enc_sprite_head(*v));
    }
}

pub fn get_sprite_head(data: &Vec<u8>, pos: usize) -> (r: SpriteHeadSer)
    requires
        pos + SPRITE_HEAD_WIRE <= data@.len(),
    ensures
        r == dec_sprite_head_at(data@, pos as int),
{
    let _n = data.len();
    SpriteHeadSer {
        prev: get_u32(data, pos),
        next: get_u32(data, pos + 4),
        sprite_id: get_u16(data, pos + 8),
        player: get_u8(data, pos + 10),
        selection_index: get_u8(data, pos + 11),
        visibility_mask: get_u8(data, pos + 12),
        elevation: get_u8(data, pos + 13),
        flags: get_u8(data, pos + 14),
        selection_flash_timer: get_u8(data, pos + 15),
        index: get_u16(data, pos + 16),
        width: get_u8(data, pos + 18),
        height: get_u8(data, pos + 19),
        position: get_point(data, pos + 20),
        main_image_id: get_u32(data, pos + 24),
        spawn_order: get_u64(data, pos + 28),
        image_count: get_u32(data, pos + 36),
    }
}

#[derive(Debug, Clone, Copy, PartialEq, Eq, Structural)]
pub struct LoneSpriteSer {
    pub sprite: u32,
    pub value: u32,
}

pub const LONE_SER_WIRE: usize = 8;

pub open spec fn dec_lone_ser_at(s: Seq<u8>, pos: int) -> LoneSpriteSer {
    LoneSpriteSer {
        sprite: dec_u32_at(s, pos),
        value: dec_u32_at(s, pos + 4),
    }
}

pub proof fn lemma_dec_lone_ser_stable(a: Seq<u8>, b: Seq<u8>, pos: int)
    requires
        0 <= pos,
        pos + LONE_SER_WIRE <= a.len(),
        pos + LONE_SER_WIRE <= b.len(),
        b.subrange(pos, pos + LONE_SER_WIRE) == a.subrange(pos, pos + LONE_SER_WIRE),
    ensures
        dec_lone_ser_at(b, pos) == dec_lone_ser_at(a, pos),
{
    lemma_subrange_within(a, b, pos, pos + LONE_SER_WIRE, pos + 0, pos + 0 + 4);
    lemma_subrange_within(a, b, pos, pos + LONE_SER_WIRE, pos + 4, pos + 4 + 4);
}

pub open spec fn enc_lone_ser(v: LoneSpriteSer) -> Seq<u8> {
    enc_u32(v.sprite) + enc_u32(v.value)
}

pub fn put_lone_ser(buf: &mut Vec<u8>, v: &LoneSpriteSer)
    ensures
        final(buf)@.len() == old(buf)@.len() + LONE_SER_WIRE,
        prefix_of(old(buf)@, final(buf)@),
        dec_lone_ser_at(final(buf)@, old(buf)@.len() as int) == *v,
        final(buf)@ == old(buf)@ + enc_lone_ser(*v),
{
    let ghost p = buf@.len() as int;
    let ghost s0 = buf@;
    put_u32(buf, v.sprite);
    let ghost s1 = buf@;
    put_u32(buf, v.value);
    let ghost s2 = buf@;
    proof {
        lemma_prefix_refl(buf@);
        lemma_prefix_trans(s1, s2, buf@);
        lemma_prefix_trans(s0, s1, buf@);
        lemma_subrange_in_prefix(s1, buf@, p, p + 4);
        lemma_subrange_in_prefix(s2, buf@, p + 4, p + 4 + 4);
        assert(prefix_of(s0, buf@));
        assert(dec_lone_ser_at(buf@, p) == *v);
        lemma_enc_dec();
        assert(buf@ =~= s0 + enc_lone_ser(*v));
    }
}

pub fn get_lone_ser(data: &Vec<u8>, pos: usize) -> (r: LoneSpriteSer)
    requires
        pos + LONE_SER_WIRE <= data@.len(),
    ensures
        r == dec_lone_ser_at(data@, pos as int),
{
    let _n = data.len();
    LoneSpriteSer {
        sprite: get_u32(data, pos),
        value: get_u32(data, pos + 4),
    }
}

#[derive(Debug, Clone, Copy, PartialEq, Eq, Structural)]
pub struct SpriteGlobalsSer {
    pub line_count: u32,
    pub sprite_count: u32,
    pub lone_count: u32,
    pub fow_count: u32,
    pub cursor_marker: u32,
}

pub const SPRITE_GLOBALS_WIRE: usize = 20;

pub open spec fn dec_sprite_globals_at(s: Seq<u8>, pos: int) -> SpriteGlobalsSer {
    SpriteGlobalsSer {
        line_count: dec_u32_at(s, pos),
        sprite_count: dec_u32_at(s, pos + 4),
        lone_count: dec_u32_at(s, pos + 8),
        fow_count: dec_u32_at(s, pos + 12),
        cursor_marker: dec_u32_at(s, pos + 16),
    }
}

pub proof fn lemma_dec_sprite_globals_stable(a: Seq<u8>, b: Seq<u8>, pos: int)
    requires
        0 <= pos,
        pos + SPRITE_GLOBALS_WIRE <= a.len(),
        pos + SPRITE_GLOBALS_WIRE <= b.len(),
        b.subrange(pos, pos + SPRITE_GLOBALS_WIRE) == a.subrange(pos, pos + SPRITE_GLOBALS_WIRE),
    ensures
        dec_sprite_globals_at(b, pos) == dec_sprite_globals_at(a, pos),
{
    lemma_subrange_within(a, b, pos, pos + SPRITE_GLOBALS_WIRE, pos + 0, pos + 0 + 4);
    lemma_subrange_within(a, b, pos, pos + SPRITE_GLOBALS_WIRE, pos + 4, pos + 4 + 4);
    lemma_subrange_within(a, b, pos, pos + SPRITE_GLOBALS_WIRE, pos + 8, pos + 8 + 4);
    lemma_subrange_within(a, b, pos, pos + SPRITE_GLOBALS_WIRE, pos + 12, pos + 12 + 4);
    lemma_subrange_within(a, b, pos, pos + SPRITE_GLOBALS_WIRE, pos + 16, pos + 16 + 4);
}

pub open spec fn enc_sprite_globals(v: SpriteGlobalsSer) -> Seq<u8> {
    enc_u32(v.line_count) + enc_u32(v.sprite_count) + enc_u32(v.lone_count) + enc_u32(v.fow_count)
        + enc_u32(v.cursor_marker)
}

pub fn put_sprite_globals(buf: &mut Vec<u8>, v: &SpriteGlobalsSer)
    ensures
        final(buf)@.len() == old(buf)@.len() + SPRITE_GLOBALS_WIRE,
        prefix_of(old(buf)@, final(buf)@),
        dec_sprite_globals_at(final(buf)@, old(buf)@.len() as int) == *v,
        final(buf)@ == old(buf)@ + enc_sprite_globals(*v),
{
    let ghost p = buf@.len() as int;
    let ghost s0 = buf@;
    put_u32(buf, v.line_count);
    let ghost s1 = buf@;
    put_u32(buf, v.sprite_count);
    let ghost s2 = buf@;
    put_u32(buf, v.lone_count);
    let ghost s3 = buf@;
    put_u32(buf, v.fow_count);
    let ghost s4 = buf@;
    put_u32(buf, v.cursor_marker);
    let ghost s5 = buf@;
    proof {
        lemma_prefix_refl(buf@);
        lemma_prefix_trans(s4, s5, buf@);
        lemma_prefix_trans(s3, s4, buf@);
        lemma_prefix_trans(s2, s3, buf@);
        lemma_prefix_trans(s1, s2, buf@);
        lemma_prefix_trans(s0, s1, buf@);
        lemma_subrange_in_prefix(s1, buf@, p, p + 4);
        lemma_subrange_in_prefix(s2, buf@, p + 4, p + 4 + 4);
        lemma_subrange_in_prefix(s3, buf@, p + 8, p + 8 + 4);
        lemma_subrange_in_prefix(s4, buf@, p + 12, p + 12 + 4);
        lemma_subrange_in_prefix(s5, buf@, p + 16, p + 16 + 4);
        assert(prefix_of(s0, buf@));
        assert(dec_sprite_globals_at(buf@, p) == *v);
        lemma_enc_dec();
        assert(buf@ =~= s0 + enc_sprite_globals(*v));
    }
}

pub fn get_sprite_globals(data: &Vec<u8>, pos: usize) -> (r: SpriteGlobalsSer)
    requires
        pos + SPRITE_GLOBALS_WIRE <= data@.len(),
    ensures
        r == dec_sprite_globals_at(data@, pos as int),
{
    let _n = data.len();
    SpriteGlobalsSer {
        line_count: get_u32(data, pos),
        sprite_count: get_u32(data, pos + 4),
        lone_count: get_u32(data, pos + 8),
        fow_count: get_u32(data, pos + 12),
        cursor_marker: get_u32(data, pos + 16),
    }
}

#[derive(Debug, Clone, Copy, PartialEq, Eq, Structural)]
pub struct HLineSer {
    pub begin: u32,
    pub end: u32,
}

pub const HLINE_WIRE: usize = 8;

pub open spec fn dec_hline_at(s: Seq<u8>, pos: int) -> HLineSer {
    HLineSer {
        begin: dec_u32_at(s, pos),
        end: dec_u32_at(s, pos + 4),
    }
}

pub proof fn lemma_dec_hline_stable(a: Seq<u8>, b: Seq<u8>, pos: int)
    requires
        0 <= pos,
        pos + HLINE_WIRE <= a.len(),
        pos + HLINE_WIRE <= b.len(),
        b.subrange(pos, pos + HLINE_WIRE) == a.subrange(pos, pos + HLINE_WIRE),
    ensures
        dec_hline_at(b, pos) == dec_hline_at(a, pos),
{
    lemma_subrange_within(a, b, pos, pos + HLINE_WIRE, pos + 0, pos + 0 + 4);
    lemma_subrange_within(a, b, pos, pos + HLINE_WIRE, pos + 4, pos + 4 + 4);
}

pub open spec fn enc_hline(v: HLineSer) -> Seq<u8> {
    enc_u32(v.begin) + enc_u32(v.end)
}

pub fn put_hline(buf: &mut Vec<u8>, v: &HLineSer)
    ensures
        final(buf)@.len() == old(buf)@.len() + HLINE_WIRE,
        prefix_of(old(buf)@, final(buf)@),
        dec_hline_at(final(buf)@, old(buf)@.len() as int) == *v,
        final(buf)@ == old(buf)@ + enc_hline(*v),
{
    let ghost p = buf@.len() as int;
    let ghost s0 = buf@;
    put_u32(buf, v.begin);
    let ghost s1 = buf@;
    put_u32(buf, v.end);
    let ghost s2 = buf@;
    proof {
        lemma_prefix_refl(buf@);
        lemma_prefix_trans(s1, s2, buf@);
        lemma_prefix_trans(s0, s1, buf@);
        lemma_subrange_in_prefix(s1, buf@, p, p + 4);
        lemma_subrange_in_prefix(s2, buf@, p + 4, p + 4 + 4);
        assert(prefix_of(s0, buf@));
        assert(dec_hline_at(buf@, p) == *v);
        lemma_enc_dec();
        assert(buf@ =~= s0 + enc_hline(*v));
    }
}

pub fn get_hline(data: &Vec<u8>, pos: usize) -> (r: HLineSer)
    requires
        pos + HLINE_WIRE <= data@.len(),
    ensures
        r == dec_hline_at(data@, pos as int),
{
    let _n = data.len();
    HLineSer {
        begin: get_u32(data, pos),
        end: get_u32(data, pos + 4),
    }
}

// ---------------------------------------------------------------------------
// Image and standalone-sprite record conversions.
// ---------------------------------------------------------------------------

/// The record an image serializes to, tagged with the arena slot it lives
/// in, or the first bad reference: the graphics slot, then the draw
/// parameter.
pub open spec fn spec_image_to_ser(img: Image, slot: usize, image_count: u32) -> Result<
    ImageSer,
    SaveError,
> {
    let grp = spec_grp_to_id(img.grp, image_count);
    let param = spec_param_to_word(img.drawfunc_param);
    if grp is Err {
        Err(grp->Err_0)
    } else if param is Err {
        Err(param->Err_0)
    } else {
        Ok(ImageSer {
            slot: slot as u32,
            image_id: img.image_id,
            drawfunc: img.drawfunc,
            direction: img.direction,
            flags: img.flags,
            x_offset: img.x_offset,
            y_offset: img.y_offset,
            iscript: img.iscript,
            frameset: img.frameset,
            frame: img.frame,
            map_position: img.map_position,
            screen_x: img.screen_x,
            screen_y: img.screen_y,
            grp_bound_0: img.grp_bound_0,
            grp_bound_1: img.grp_bound_1,
            grp_bound_2: img.grp_bound_2,
            grp_bound_3: img.grp_bound_3,
            grp: grp->Ok_0,
            drawfunc_param: param->Ok_0,
        })
    }
}

/// The image a record deserializes to, with its links and parent left
/// null for the list rebuild, or the first id that does not resolve.
pub open spec fn spec_image_from_ser(s: ImageSer, image_count: u32) -> Result<Image, LoadError> {
    let grp = spec_grp_from_id(s.grp, image_count);
    let param = spec_param_from_word(s.drawfunc, s.drawfunc_param);
    if grp is Err {
        Err(grp->Err_0)
    } else if param is Err {
        Err(param->Err_0)
    } else {
        Ok(Image {
            prev: None,
            next: None,
            image_id: s.image_id,
            drawfunc: s.drawfunc,
            direction: s.direction,
            flags: s.flags,
            x_offset: s.x_offset,
            y_offset: s.y_offset,
            iscript: s.iscript,
            frameset: s.frameset,
            frame: s.frame,
            map_position: s.map_position,
            screen_x: s.screen_x,
            screen_y: s.screen_y,
            grp_bound_0: s.grp_bound_0,
            grp_bound_1: s.grp_bound_1,
            grp_bound_2: s.grp_bound_2,
            grp_bound_3: s.grp_bound_3,
            grp: grp->Ok_0,
            drawfunc_param: param->Ok_0,
            parent: None,
        })
    }
}

/// Serializes one image.
pub fn image_serializable(img: &Image, slot: usize, image_count: u32) -> (r: Result<
    ImageSer,
    SaveError,
>)
    requires
        img.drawfunc_param matches DrawfuncParam::UnitRef(u) ==> (u is Some ==> u->Some_0
            < UNIT_LIMIT),
        slot < 0x1_0000_0000,
    ensures
        r == spec_image_to_ser(*img, slot, image_count),
{
    let grp = match grp_to_id(img.grp, image_count) {
        Ok(v) => v,
        Err(e) => {
            return Err(e);
        },
    };
    let drawfunc_param = match param_to_word(&img.drawfunc_param) {
        Ok(v) => v,
        Err(e) => {
            return Err(e);
        },
    };
    Ok(ImageSer {
        slot: slot as u32,
        image_id: img.image_id,
        drawfunc: img.drawfunc,
        direction: img.direction,
        flags: img.flags,
        x_offset: img.x_offset,
        y_offset: img.y_offset,
        iscript: img.iscript,
        frameset: img.frameset,
        frame: img.frame,
        map_position: img.map_position,
        screen_x: img.screen_x,
        screen_y: img.screen_y,
        grp_bound_0: img.grp_bound_0,
        grp_bound_1: img.grp_bound_1,
        grp_bound_2: img.grp_bound_2,
        grp_bound_3: img.grp_bound_3,
        grp,
        drawfunc_param,
    })
}

/// Rebuilds one image from its record; the caller wires it into its
/// sprite's list afterwards.
pub fn deserialize_image(s: &ImageSer, image_count: u32) -> (r: Result<Image, LoadError>)
    ensures
        r == spec_image_from_ser(*s, image_count),
{
    let grp = match grp_from_id(s.grp, image_count) {
        Ok(v) => v,
        Err(e) => {
            return Err(e);
        },
    };
    let drawfunc_param = match param_from_word(s.drawfunc, s.drawfunc_param) {
        Ok(v) => v,
        Err(e) => {
            return Err(e);
        },
    };
    Ok(Image {
        prev: None,
        next: None,
        image_id: s.image_id,
        drawfunc: s.drawfunc,
        direction: s.direction,
        flags: s.flags,
        x_offset: s.x_offset,
        y_offset: s.y_offset,
        iscript: s.iscript,
        frameset: s.frameset,
        frame: s.frame,
        map_position: s.map_position,
        screen_x: s.screen_x,
        screen_y: s.screen_y,
        grp_bound_0: s.grp_bound_0,
        grp_bound_1: s.grp_bound_1,
        grp_bound_2: s.grp_bound_2,
        grp_bound_3: s.grp_bound_3,
        grp,
        drawfunc_param,
        parent: None,
    })
}

/// An image record round-trips up to its links and parent, which the
/// list rebuild rewires.
pub proof fn lemma_image_round_trip(img: Image, slot: usize, image_count: u32)
    requires
        spec_param_refs_ok(img.drawfunc_param),
        spec_param_matches(img.drawfunc, img.drawfunc_param),
        spec_image_to_ser(img, slot, image_count) is Ok,
    ensures
        spec_image_from_ser(spec_image_to_ser(img, slot, image_count)->Ok_0, image_count) == Ok::<
            Image,
            LoadError,
        >(Image { prev: None, next: None, parent: None, ..img }),
{
    lemma_grp_round_trip(img.grp, image_count);
    lemma_param_round_trip(img.drawfunc, img.drawfunc_param);
}

/// The record a standalone sprite serializes to: its sprite reference
/// goes through the sprite directory of the same save.
pub open spec fn spec_lone_to_ser(l: LoneSprite, sprite_ids: Seq<u32>) -> Result<
    LoneSpriteSer,
    SaveError,
> {
    let sprite = spec_id_seq(sprite_ids, l.sprite);
    if sprite is Err {
        Err(sprite->Err_0)
    } else {
        Ok(LoneSpriteSer { sprite: sprite->Ok_0, value: l.value })
    }
}

/// The standalone sprite a record deserializes to, with null links for
/// the batch re-link.
pub open spec fn spec_lone_from_ser(s: LoneSpriteSer, sprite_slots: Seq<usize>) -> Result<
    LoneSprite,
    LoadError,
> {
    let sprite = spec_pointer_seq(sprite_slots, s.sprite);
    if sprite is Err {
        Err(sprite->Err_0)
    } else {
        Ok(LoneSprite { prev: None, next: None, value: s.value, sprite: sprite->Ok_0 })
    }
}

/// Serializes one standalone sprite.
pub fn lone_sprite_serializable(l: &LoneSprite, sprites: &SaveMapping) -> (r: Result<
    LoneSpriteSer,
    SaveError,
>)
    ensures
        r == spec_lone_to_ser(*l, sprites@),
{
    let sprite = match sprites.id(l.sprite) {
        Ok(v) => v,
        Err(e) => {
            return Err(e);
        },
    };
    Ok(LoneSpriteSer { sprite, value: l.value })
}

/// Rebuilds one standalone sprite from its record.
pub fn deserialize_lone_sprite(s: &LoneSpriteSer, sprites: &LoadMapping) -> (r: Result<
    LoneSprite,
    LoadError,
>)
    ensures
        r == spec_lone_from_ser(*s, sprites@),
{
    let sprite = match sprites.pointer(s.sprite) {
        Ok(v) => v,
        Err(e) => {
            return Err(e);
        },
    };
    Ok(LoneSprite { prev: None, next: None, value: s.value, sprite })
}

// ---------------------------------------------------------------------------
// List boundary integrity.
// ---------------------------------------------------------------------------

/// Re-links one allocation batch that holds two logical standalone-sprite
/// lists: slots `0..boundary` are the first list, `boundary..len` the
/// second. List boundary integrity is the contract: the first entry of
/// each logical list gets a null `prev`, the last entry of each a null
/// `next`, every interior entry points at its batch neighbours, and no
/// link ever crosses the boundary between the two lists.
pub fn relink_lone_lists(pool: &mut RawVec<LoneSprite>, boundary: usize)
    requires
        boundary <= old(pool)@.len(),
    ensures
        final(pool)@.len() == old(pool)@.len(),
        final(pool).spec_capacity() == old(pool).spec_capacity(),
        forall|k: int|
            0 <= k < old(pool)@.len() ==> final(pool)@[k] == (LoneSprite {
                prev: if k == 0 || k == boundary {
                    None
                } else {
                    Some((k - 1) as usize)
                },
                next: if k + 1 == boundary || k + 1 == old(pool)@.len() {
                    None
                } else {
                    Some((k + 1) as usize)
                },
                ..old(pool)@[k]
            }),
{
    let n = pool.len();
    let ghost orig = pool@;
    let mut k: usize = 0;
    while k < n
        invariant
            n == orig.len(),
            boundary <= n,
            k <= n,
            pool@.len() == n,
            pool.spec_capacity() == old(pool).spec_capacity(),
            forall|j: int|
                0 <= j < k ==> pool@[j] == (LoneSprite {
                    prev: if j == 0 || j == boundary {
                        None
                    } else {
                        Some((j - 1) as usize)
                    },
                    next: if j + 1 == boundary || j + 1 == n {
                        None
                    } else {
                        Some((j + 1) as usize)
                    },
                    ..orig[j]
                }),
            forall|j: int| k <= j < n ==> pool@[j] == orig[j],
        decreases n - k,
    {
        let cur = *pool.get(k);
        let prev: Option<usize> = if k == 0 || k == boundary {
            None
        } else {
            Some(k - 1)
        };
        let next: Option<usize> = if k + 1 == boundary || k + 1 == n {
            None
        } else {
            Some(k + 1)
        };
        pool.set(k, LoneSprite { prev, next, ..cur });
        k = k + 1;
    }
}

// ---------------------------------------------------------------------------
// Cross-kind resolution through the directories of the current operation.
// ---------------------------------------------------------------------------

/// The id of a sprite reference under the sprite directory of the save
/// in progress; entity codecs of the other kinds resolve through this.
pub fn sprite_to_id_current_mapping(mapping: &SaveMapping, sprite: Option<usize>) -> (r: Result<
    u32,
    SaveError,
>)
    ensures
        r == mapping.spec_id(sprite),
{
    mapping.id(sprite)
}

/// The sprite slot an id resolves to under the sprite directory of the
/// load in progress.
pub fn sprite_from_id_current_mapping(mapping: &LoadMapping, id: u32) -> (r: Result<
    Option<usize>,
    LoadError,
>)
    ensures
        r == mapping.spec_pointer(id),
{
    mapping.pointer(id)
}

/// The id of a standalone-sprite reference under the standalone-sprite
/// directory of the save in progress.
pub fn lone_sprite_to_id_current_mapping(mapping: &SaveMapping, sprite: Option<usize>) -> (r:
    Result<u32, SaveError>)
    ensures
        r == mapping.spec_id(sprite),
{
    mapping.id(sprite)
}

/// The standalone-sprite slot an id resolves to under the
/// standalone-sprite directory of the load in progress.
pub fn lone_sprite_from_id_current_mapping(mapping: &LoadMapping, id: u32) -> (r: Result<
    Option<usize>,
    LoadError,
>)
    ensures
        r == mapping.spec_pointer(id),
{
    mapping.pointer(id)
}

/// Toggles the vision-sync accumulator row a sprite falls in: the
/// sprite's tile row, clamped to the map height, is flipped with the
/// local player's vision mask when the sprite's kind takes part in
/// vision synchronization.
pub fn sprite_vision_sync(
    sync_lines: &mut Vec<u8>,
    include_in_sync: bool,
    position_y: i16,
    map_height_tiles: u16,
    player_visions: u8,
)
    requires
        map_height_tiles < old(sync_lines)@.len(),
    ensures
        final(sync_lines)@.len() == old(sync_lines)@.len(),
        ({
            let y = position_y / 32;
            let tile = if y < 0 {
                0
            } else if y > map_height_tiles {
                map_height_tiles as int
            } else {
                y as int
            };
            if include_in_sync {
                final(sync_lines)@ == old(sync_lines)@.update(
                    tile,
                    old(sync_lines)@[tile] ^ player_visions,
                )
            } else {
                final(sync_lines)@ == old(sync_lines)@
            }
        }),
{
    if include_in_sync {
        let y = position_y / 32;
        let tile: usize = if y < 0 {
            0
        } else if (y as i32) > (map_height_tiles as i32) {
            map_height_tiles as usize
        } else {
            y as usize
        };
        let v = sync_lines[tile];
        sync_lines[tile] = v ^ player_visions;
    }
}

// ---------------------------------------------------------------------------
// The sprite system and its chunk.
// ---------------------------------------------------------------------------

/// The whole process-wide sprite state: the sprite and image arenas, the
/// standalone-sprite pool with its two list heads, the per-scanline
/// sprite buckets, and the cursor marker.
pub struct SpriteSystem {
    pub sprites: RawVec<Sprite>,
    pub images: RawVec<Image>,
    pub lone: RawVec<LoneSprite>,
    pub first_lone: Option<usize>,
    pub last_lone: Option<usize>,
    pub first_fow: Option<usize>,
    pub last_fow: Option<usize>,
    pub hlines_begin: Vec<Option<usize>>,
    pub hlines_end: Vec<Option<usize>>,
    pub cursor_marker: Option<usize>,
}

/// An image that never leaves the dead storage between live slots.
pub open spec fn spec_blank_image() -> Image {
    Image {
        prev: None,
        next: None,
        image_id: 0,
        drawfunc: 0,
        direction: 0,
        flags: 0,
        x_offset: 0,
        y_offset: 0,
        iscript: Iscript { header: 0, pos: 0, return_pos: 0, animation_id: 0, wait: 0 },
        frameset: 0,
        frame: 0,
        map_position: Point { x: 0, y: 0 },
        screen_x: 0,
        screen_y: 0,
        grp_bound_0: 0,
        grp_bound_1: 0,
        grp_bound_2: 0,
        grp_bound_3: 0,
        grp: None,
        drawfunc_param: DrawfuncParam::Raw(0),
        parent: None,
    }
}

/// An image that never leaves the dead storage between live slots.
pub fn blank_image() -> (r: Image)
    ensures
        r == spec_blank_image(),
        r.prev is None && r.next is None && r.parent is None,
{
    Image {
        prev: None,
        next: None,
        image_id: 0,
        drawfunc: 0,
        direction: 0,
        flags: 0,
        x_offset: 0,
        y_offset: 0,
        iscript: Iscript { header: 0, pos: 0, return_pos: 0, animation_id: 0, wait: 0 },
        frameset: 0,
        frame: 0,
        map_position: Point { x: 0, y: 0 },
        screen_x: 0,
        screen_y: 0,
        grp_bound_0: 0,
        grp_bound_1: 0,
        grp_bound_2: 0,
        grp_bound_3: 0,
        grp: None,
        drawfunc_param: DrawfuncParam::Raw(0),
        parent: None,
    }
}

/// Every image of the pool keeps its selection-circle parameter inside
/// the unit array: the invariant of the host image the save relies on.
pub open spec fn spec_images_refs_ok(images: Seq<Image>) -> bool {
    forall|i: int|
        0 <= i < images.len() ==> ((#[trigger] images[i].drawfunc_param) matches
            DrawfuncParam::UnitRef(u) ==> (u is Some ==> u->Some_0 < UNIT_LIMIT))
}

/// Inversion of the arena-order sprite directory: a reference into the
/// arena gets id slot+1 on save, and the dense load directory of the same
/// count resolves that id back to the same slot; null maps to id 0 and id
/// 0 restores null. This is what makes every saved sprite reference -- a
/// list link, a bucket-row head, a standalone sprite's target -- land on
/// the slot it left.
pub proof fn lemma_arena_dir_inverse(n: nat, r: Option<usize>)
    requires
        n < 0xffff_ffff,
        r matches Some(s) ==> s < n,
    ensures
        spec_id_seq(arena_dir_view(n), r) is Ok,
        spec_pointer_seq(dense_view(n), spec_id_seq(arena_dir_view(n), r)->Ok_0) == Ok::<
            Option<usize>,
            LoadError,
        >(r),
{
}

/// Round trip of one standalone-sprite record: saved against the
/// arena-order sprite directory and loaded against the matching dense
/// directory, a standalone sprite keeps its value and its sprite
/// reference exactly, and its list links come back null for the batch
/// re-link to rewire.
pub proof fn lemma_lone_round_trip(l: LoneSprite, n: nat)
    requires
        n < 0xffff_ffff,
        l.sprite matches Some(s) ==> s < n,
    ensures
        spec_lone_to_ser(l, arena_dir_view(n)) is Ok,
        spec_lone_from_ser(spec_lone_to_ser(l, arena_dir_view(n))->Ok_0, dense_view(n)) == Ok::<
            LoneSprite,
            LoadError,
        >(LoneSprite { prev: None, next: None, ..l }),
{
    lemma_arena_dir_inverse(n, l.sprite);
}

/// The slot->id view of the arena-order sprite directory: slot k has id
/// k+1, and every slot of the arena is mapped.
pub open spec fn arena_dir_view(n: nat) -> Seq<u32> {
    Seq::new(n, |s: int| (s + 1) as u32)
}

/// The bytes the per-scanline bucket rows from `row` on append to `acc`,
/// or the first error: a bucket head absent from the sprite directory,
/// then the cumulative encoded size passing the ceiling, reported with
/// the exact byte count at the breach.
pub open spec fn spec_emit_hlines(
    begin: Seq<Option<usize>>,
    end: Seq<Option<usize>>,
    row: int,
    dir: Seq<u32>,
    acc: Seq<u8>,
) -> Result<Seq<u8>, SaveError>
    decreases begin.len() - row,
{
    if row < 0 || row >= begin.len() {
        Ok(acc)
    } else {
        let b = spec_id_seq(dir, begin[row]);
        if b is Err {
            Err(b->Err_0)
        } else {
            let e = spec_id_seq(dir, end[row]);
            if e is Err {
                Err(e->Err_0)
            } else {
                let acc2 = acc + enc_hline(HLineSer { begin: b->Ok_0, end: e->Ok_0 });
                if acc2.len() > SPRITE_SAVE_MAX_SIZE {
                    Err(SaveError::SizeLimit(acc2.len() as u64))
                } else {
                    spec_emit_hlines(begin, end, row + 1, dir, acc2)
                }
            }
        }
    }
}

/// The overlay slots a sprite keeps after stripping selection overlays,
/// walking its image list from position `j` on, together with the 1-based
/// position its main image holds among the kept records (0 where the main
/// image is not among them).
pub open spec fn spec_filter_images(
    images: Seq<Image>,
    order: Seq<usize>,
    j: int,
    main: Option<usize>,
    kept: Seq<usize>,
    main_id: u32,
) -> (Seq<usize>, u32)
    decreases order.len() - j,
{
    if j < 0 || j >= order.len() {
        (kept, main_id)
    } else {
        let slot = order[j];
        if !spec_is_selection_image(images[slot as int]) {
            let kept2 = kept.push(slot);
            let main2 = if main == Some(slot) && main_id == 0 {
                kept2.len() as u32
            } else {
                main_id
            };
            spec_filter_images(images, order, j + 1, main, kept2, main2)
        } else {
            spec_filter_images(images, order, j + 1, main, kept, main_id)
        }
    }
}

/// The bytes the kept overlay records from position `t` on append to
/// `acc`, or the first error: a bad graphics or draw-parameter reference,
/// then the ceiling breach with its exact byte count.
pub open spec fn spec_emit_images(
    images: Seq<Image>,
    kept: Seq<usize>,
    t: int,
    grp_count: u32,
    acc: Seq<u8>,
) -> Result<Seq<u8>, SaveError>
    decreases kept.len() - t,
{
    if t < 0 || t >= kept.len() {
        Ok(acc)
    } else {
        let ser = spec_image_to_ser(images[kept[t] as int], kept[t] as usize, grp_count);
        if ser is Err {
            Err(ser->Err_0)
        } else {
            let acc2 = acc + enc_image_ser(ser->Ok_0);
            if acc2.len() > SPRITE_SAVE_MAX_SIZE {
                Err(SaveError::SizeLimit(acc2.len() as u64))
            } else {
                spec_emit_images(images, kept, t + 1, grp_count, acc2)
            }
        }
    }
}

/// The record a sprite emits: list links through the arena-order
/// directory, the selection-overlay flag bits cleared, the filtered
/// overlay count and main-image position, every other scalar verbatim.
pub open spec fn spec_sprite_head(
    sprite: Sprite,
    prev: u32,
    next: u32,
    main_id: u32,
    image_count: u32,
) -> SpriteHeadSer {
    SpriteHeadSer {
        prev,
        next,
        sprite_id: sprite.sprite_id,
        player: sprite.player,
        selection_index: sprite.selection_index,
        visibility_mask: sprite.visibility_mask,
        elevation: sprite.elevation,
        flags: sprite.flags & 0xf6,
        selection_flash_timer: sprite.selection_flash_timer,
        index: sprite.index,
        width: sprite.width,
        height: sprite.height,
        position: sprite.position,
        main_image_id: main_id,
        spawn_order: sprite.extra.spawn_order,
        image_count,
    }
}

/// The bytes the sprite records from arena slot `k` on append to `acc`,
/// each head followed by its kept overlay records in chain order tagged
/// with their arena slots, or the first error: a corrupt overlay list,
/// a list link absent from the directory, then the per-record errors and
/// ceiling breaches in emission order.
pub open spec fn spec_emit_sprites_from(
    sprites: Seq<Sprite>,
    images: Seq<Image>,
    k: int,
    grp_count: u32,
    dir: Seq<u32>,
    acc: Seq<u8>,
) -> Result<Seq<u8>, SaveError>
    decreases sprites.len() - k,
{
    if k < 0 || k >= sprites.len() {
        Ok(acc)
    } else {
        let sprite = sprites[k];
        let w = spec_walk(images, sprite.first_overlay, Seq::<usize>::empty());
        if w is Err {
            Err(w->Err_0)
        } else {
            let fi = spec_filter_images(
                images,
                w->Ok_0,
                0,
                sprite.main_image,
                Seq::<usize>::empty(),
                0,
            );
            let prev = spec_id_seq(dir, sprite.prev);
            if prev is Err {
                Err(prev->Err_0)
            } else {
                let next = spec_id_seq(dir, sprite.next);
                if next is Err {
                    Err(next->Err_0)
                } else {
                    let head = spec_sprite_head(
                        sprite,
                        prev->Ok_0,
                        next->Ok_0,
                        fi.1,
                        fi.0.len() as u32,
                    );
                    let acc2 = acc + enc_sprite_head(head);
                    if acc2.len() > SPRITE_SAVE_MAX_SIZE {
                        Err(SaveError::SizeLimit(acc2.len() as u64))
                    } else {
                        let im = spec_emit_images(images, fi.0, 0, grp_count, acc2);
                        if im is Err {
                            Err(im->Err_0)
                        } else {
                            spec_emit_sprites_from(
                                sprites,
                                images,
                                k + 1,
                                grp_count,
                                dir,
                                im->Ok_0,
                            )
                        }
                    }
                }
            }
        }
    }
}

/// The bytes the standalone-sprite records of one list append to `acc`
/// from traversal position `li` on, or the first error: a sprite
/// reference absent from the directory, then the ceiling breach with its
/// exact byte count.
pub open spec fn spec_emit_lones(
    pool: Seq<LoneSprite>,
    order: Seq<usize>,
    li: int,
    dir: Seq<u32>,
    acc: Seq<u8>,
) -> Result<Seq<u8>, SaveError>
    decreases order.len() - li,
{
    if li < 0 || li >= order.len() {
        Ok(acc)
    } else {
        let ser = spec_lone_to_ser(pool[order[li] as int], dir);
        if ser is Err {
            Err(ser->Err_0)
        } else {
            let acc2 = acc + enc_lone_ser(ser->Ok_0);
            if acc2.len() > SPRITE_SAVE_MAX_SIZE {
                Err(SaveError::SizeLimit(acc2.len() as u64))
            } else {
                spec_emit_lones(pool, order, li + 1, dir, acc2)
            }
        }
    }
}

/// Reading a bucket-row record back from the position it was written to
/// yields the written record.
pub proof fn lemma_dec_enc_hline(s: Seq<u8>, pos: int, v: HLineSer)
    requires
        0 <= pos,
        pos + HLINE_WIRE <= s.len(),
        s.subrange(pos, pos + HLINE_WIRE) == enc_hline(v),
    ensures
        dec_hline_at(s, pos) == v,
{
    lemma_enc_dec();
    assert(s.subrange(pos, pos + 4) =~= enc_u32(v.begin)) by {
        assert forall|i: int| 0 <= i < 4 implies s.subrange(pos, pos + 4)[i] == enc_u32(
            v.begin,
        )[i] by {
            assert(s.subrange(pos, pos + HLINE_WIRE)[i] == s[pos + i]);
        }
    }
    assert(s.subrange(pos + 4, pos + 8) =~= enc_u32(v.end)) by {
        assert forall|i: int| 0 <= i < 4 implies s.subrange(pos + 4, pos + 8)[i] == enc_u32(
            v.end,
        )[i] by {
            assert(s.subrange(pos, pos + HLINE_WIRE)[4 + i] == s[pos + 4 + i]);
        }
    }
}

/// Emission only appends: what the bucket rows emit extends the
/// accumulator it started from.
pub proof fn lemma_emit_hlines_extends(
    hb: Seq<Option<usize>>,
    he: Seq<Option<usize>>,
    row: int,
    dir: Seq<u32>,
    acc: Seq<u8>,
)
    requires
        0 <= row,
        spec_emit_hlines(hb, he, row, dir, acc) is Ok,
    ensures
        prefix_of(acc, spec_emit_hlines(hb, he, row, dir, acc)->Ok_0),
    decreases hb.len() - row,
{
    if row >= hb.len() {
        lemma_prefix_refl(acc);
    } else {
        let b = spec_id_seq(dir, hb[row]);
        let e = spec_id_seq(dir, he[row]);
        let acc2 = acc + enc_hline(HLineSer { begin: b->Ok_0, end: e->Ok_0 });
        lemma_emit_hlines_extends(hb, he, row + 1, dir, acc2);
        assert(acc2.subrange(0, acc.len() as int) =~= acc);
        lemma_prefix_trans(acc, acc2, spec_emit_hlines(hb, he, row, dir, acc)->Ok_0);
    }
}

/// Bucket-row round trip. In any stream that extends what the rows from
/// `row` on emitted into `acc`, a load that decodes the same rows at the
/// same position restores every (begin, end) bucket-head pair exactly:
/// each head returns to the arena slot it left, and a null head stays
/// null.
pub proof fn lemma_hlines_round_trip(
    hb: Seq<Option<usize>>,
    he: Seq<Option<usize>>,
    row: int,
    n: nat,
    acc: Seq<u8>,
    stream: Seq<u8>,
    accb: Seq<Option<usize>>,
    acce: Seq<Option<usize>>,
)
    requires
        0 <= row <= hb.len(),
        hb.len() == he.len(),
        n < 0xffff_ffff,
        spec_emit_hlines(hb, he, row, arena_dir_view(n), acc) is Ok,
        prefix_of(spec_emit_hlines(hb, he, row, arena_dir_view(n), acc)->Ok_0, stream),
    ensures
        spec_load_hlines(
            stream,
            acc.len() as int,
            (hb.len() - row) as nat,
            dense_view(n),
            accb,
            acce,
        ) == Ok::<(Seq<Option<usize>>, Seq<Option<usize>>, int), LoadError>(
            (
                accb + hb.skip(row),
                acce + he.skip(row),
                spec_emit_hlines(hb, he, row, arena_dir_view(n), acc)->Ok_0.len() as int,
            ),
        ),
    decreases hb.len() - row,
{
    let dir = arena_dir_view(n);
    let emitted = spec_emit_hlines(hb, he, row, dir, acc)->Ok_0;
    if row == hb.len() {
        assert(accb + hb.skip(row) =~= accb);
        assert(acce + he.skip(row) =~= acce);
    } else {
        let b = spec_id_seq(dir, hb[row]);
        let e = spec_id_seq(dir, he[row]);
        let hl = HLineSer { begin: b->Ok_0, end: e->Ok_0 };
        let acc2 = acc + enc_hline(hl);
        lemma_emit_hlines_extends(hb, he, row + 1, dir, acc2);
        assert(acc2.subrange(0, acc.len() as int) =~= acc);
        lemma_prefix_trans(acc2, emitted, stream);
        lemma_subrange_in_prefix(acc2, stream, acc.len() as int, acc2.len() as int);
        assert(acc2.subrange(acc.len() as int, acc2.len() as int) =~= enc_hline(hl)) by {
            lemma_enc_dec();
        }
        lemma_enc_dec();
        lemma_dec_enc_hline(stream, acc.len() as int, hl);
        if let Some(sb) = hb[row] {
            assert(dir[sb as int] != 0);
        }
        lemma_arena_dir_inverse(n, hb[row]);
        lemma_arena_dir_inverse(n, he[row]);
        lemma_hlines_round_trip(
            hb,
            he,
            row + 1,
            n,
            acc2,
            stream,
            accb.push(hb[row]),
            acce.push(he[row]),
        );
        assert(accb.push(hb[row]) + hb.skip(row + 1) =~= accb + hb.skip(row));
        assert(acce.push(he[row]) + he.skip(row + 1) =~= acce + he.skip(row));
    }
}

/// Reading a standalone-sprite record back from the position it was
/// written to yields the written record.
pub proof fn lemma_dec_enc_lone(s: Seq<u8>, pos: int, v: LoneSpriteSer)
    requires
        0 <= pos,
        pos + LONE_SER_WIRE <= s.len(),
        s.subrange(pos, pos + LONE_SER_WIRE) == enc_lone_ser(v),
    ensures
        dec_lone_ser_at(s, pos) == v,
{
    lemma_enc_dec();
    assert(s.subrange(pos, pos + 4) =~= enc_u32(v.sprite)) by {
        assert forall|i: int| 0 <= i < 4 implies s.subrange(pos, pos + 4)[i] == enc_u32(
            v.sprite,
        )[i] by {
            assert(s.subrange(pos, pos + LONE_SER_WIRE)[i] == s[pos + i]);
        }
    }
    assert(s.subrange(pos + 4, pos + 8) =~= enc_u32(v.value)) by {
        assert forall|i: int| 0 <= i < 4 implies s.subrange(pos + 4, pos + 8)[i] == enc_u32(
            v.value,
        )[i] by {
            assert(s.subrange(pos, pos + LONE_SER_WIRE)[4 + i] == s[pos + 4 + i]);
        }
    }
}

/// Emission only appends: what one standalone list emits extends the
/// accumulator it started from.
pub proof fn lemma_emit_lones_extends(
    pool: Seq<LoneSprite>,
    order: Seq<usize>,
    li: int,
    dir: Seq<u32>,
    acc: Seq<u8>,
)
    requires
        0 <= li,
        spec_emit_lones(pool, order, li, dir, acc) is Ok,
    ensures
        prefix_of(acc, spec_emit_lones(pool, order, li, dir, acc)->Ok_0),
    decreases order.len() - li,
{
    if li >= order.len() {
        lemma_prefix_refl(acc);
    } else {
        let ser = spec_lone_to_ser(pool[order[li] as int], dir);
        let acc2 = acc + enc_lone_ser(ser->Ok_0);
        lemma_emit_lones_extends(pool, order, li + 1, dir, acc2);
        assert(acc2.subrange(0, acc.len() as int) =~= acc);
        lemma_prefix_trans(acc, acc2, spec_emit_lones(pool, order, li, dir, acc)->Ok_0);
    }
}

/// Standalone-list round trip, one traversal. In any stream that extends
/// what one standalone list's records emitted into `acc`, a load that
/// decodes the same records at the same position restores the traversed
/// standalone sprites in traversal order, each with its value and its
/// sprite reference intact and its links null for the batch re-link.
pub proof fn lemma_lones_round_trip(
    pool: Seq<LoneSprite>,
    order: Seq<usize>,
    li: int,
    n: nat,
    acc: Seq<u8>,
    stream: Seq<u8>,
    accl: Seq<LoneSprite>,
)
    requires
        0 <= li <= order.len(),
        forall|x: int| li <= x < order.len() ==> order[x] < pool.len(),
        n < 0xffff_ffff,
        spec_emit_lones(pool, order, li, arena_dir_view(n), acc) is Ok,
        prefix_of(spec_emit_lones(pool, order, li, arena_dir_view(n), acc)->Ok_0, stream),
    ensures
        spec_load_lones(stream, acc.len() as int, (order.len() - li) as nat, dense_view(n), accl)
            == Ok::<Seq<LoneSprite>, LoadError>(
            accl + Seq::new(
                (order.len() - li) as nat,
                |x: int| LoneSprite { prev: None, next: None, ..pool[order[li + x] as int] },
            ),
        ),
    decreases order.len() - li,
{
    let dir = arena_dir_view(n);
    let emitted = spec_emit_lones(pool, order, li, dir, acc)->Ok_0;
    if li == order.len() {
        assert(accl + Seq::new(0nat, |x: int| LoneSprite {
            prev: None,
            next: None,
            ..pool[order[li + x] as int]
        }) =~= accl);
    } else {
        let l = pool[order[li] as int];
        let ser = spec_lone_to_ser(l, dir);
        let acc2 = acc + enc_lone_ser(ser->Ok_0);
        lemma_emit_lones_extends(pool, order, li + 1, dir, acc2);
        assert(acc2.subrange(0, acc.len() as int) =~= acc);
        lemma_prefix_trans(acc2, emitted, stream);
        lemma_subrange_in_prefix(acc2, stream, acc.len() as int, acc2.len() as int);
        assert(acc2.subrange(acc.len() as int, acc2.len() as int) =~= enc_lone_ser(ser->Ok_0)) by {
            lemma_enc_dec();
        }
        lemma_enc_dec();
        lemma_dec_enc_lone(stream, acc.len() as int, ser->Ok_0);
        if let Some(sp) = l.sprite {
            assert(dir[sp as int] != 0);
        }
        lemma_lone_round_trip(l, n);
        lemma_lones_round_trip(
            pool,
            order,
            li + 1,
            n,
            acc2,
            stream,
            accl.push(LoneSprite { prev: None, next: None, ..l }),
        );
        assert(accl.push(LoneSprite { prev: None, next: None, ..l }) + Seq::new(
            (order.len() - li - 1) as nat,
            |x: int| LoneSprite { prev: None, next: None, ..pool[order[li + 1 + x] as int] },
        ) =~= accl + Seq::new(
            (order.len() - li) as nat,
            |x: int| LoneSprite { prev: None, next: None, ..pool[order[li + x] as int] },
        ));
    }
}

/// The exact uncompressed record stream a sprite save emits -- the globals
/// record, then the bucket rows, then one record per arena sprite in slot
/// order with its kept overlays inline, then the lone list's records,
/// then the fog list's -- or the exact first error the save reports while
/// emitting: a corrupt list, a dangling reference, or the cumulative
/// encoded size passing the ceiling.
pub open spec fn spec_save_sprites(sys: &SpriteSystem, grp_count: u32) -> Result<
    Seq<u8>,
    SaveError,
> {
    let n = sys.sprites@.len();
    let dir = arena_dir_view(n);
    let wl = spec_walk(sys.lone@, sys.first_lone, Seq::<usize>::empty());
    if wl is Err {
        Err(wl->Err_0)
    } else {
        let wf = spec_walk(sys.lone@, sys.first_fow, Seq::<usize>::empty());
        if wf is Err {
            Err(wf->Err_0)
        } else {
            let lone_dir = dir_view(wl->Ok_0, sys.lone@.len());
            let cm = spec_id_seq(lone_dir, sys.cursor_marker);
            if cm is Err {
                Err(cm->Err_0)
            } else {
                let g = SpriteGlobalsSer {
                    line_count: sys.hlines_begin@.len() as u32,
                    sprite_count: n as u32,
                    lone_count: wl->Ok_0.len() as u32,
                    fow_count: wf->Ok_0.len() as u32,
                    cursor_marker: cm->Ok_0,
                };
                let h = spec_emit_hlines(
                    sys.hlines_begin@,
                    sys.hlines_end@,
                    0,
                    dir,
                    enc_sprite_globals(g),
                );
                if h is Err {
                    Err(h->Err_0)
                } else {
                    let sp = spec_emit_sprites_from(
                        sys.sprites@,
                        sys.images@,
                        0,
                        grp_count,
                        dir,
                        h->Ok_0,
                    );
                    if sp is Err {
                        Err(sp->Err_0)
                    } else {
                        let lo = spec_emit_lones(sys.lone@, wl->Ok_0, 0, dir, sp->Ok_0);
                        if lo is Err {
                            Err(lo->Err_0)
                        } else {
                            let fo = spec_emit_lones(sys.lone@, wf->Ok_0, 0, dir, lo->Ok_0);
                            if fo is Err {
                                Err(fo->Err_0)
                            } else {
                                Ok(fo->Ok_0)
                            }
                        }
                    }
                }
            }
        }
    }
}

/// Saves the sprite chunk: every sprite of the arena in slot order (the
/// sprite directory is the arena order itself), each with its overlay
/// image list walked, stripped of selection overlays and tagged with the
/// arena slots to restore into; then the lone list, then the fog list,
/// both resolved against the arena-order directory; the per-scanline
/// bucket heads and the cursor marker go into the globals record. The
/// cumulative encoded size is checked against the ceiling after every
/// record.
///
/// The contract is exact: the save fails with precisely the first error
/// `spec_save_sprites` reports, and otherwise frames precisely the record
/// stream `spec_save_sprites` describes, failing with the compressed size
/// only where even the compressed payload passes the ceiling.
#[verifier::rlimit(100)]
#[verifier::spinoff_prover]
#[verifier::loop_isolation(false)]
pub fn save_sprites(sys: &SpriteSystem, grp_count: u32) -> (r: Result<Vec<u8>, SaveError>)
    requires
        sys.sprites@.len() < 0xffff_ffff,
        sys.lone@.len() < 0xffff_ffff,
        sys.images@.len() < 0x1_0000_0000,
        sys.hlines_begin@.len() == sys.hlines_end@.len(),
        sys.hlines_begin@.len() < 0x1_0000_0000,
        spec_images_refs_ok(sys.images@),
    ensures
        spec_save_sprites(sys, grp_count) matches Err(e) ==> r == Err::<Vec<u8>, _>(e),
        spec_save_sprites(sys, grp_count) matches Ok(stream) ==> ({
            &&& stream.len() <= SPRITE_SAVE_MAX_SIZE
            &&& (deflate_of(stream).len() <= SPRITE_SAVE_MAX_SIZE ==> (r matches Ok(bytes)
                && spec_open_chunk(bytes@, SPRITE_SAVE_MAGIC, SPRITE_SAVE_MAX_SIZE) == Ok::<
                    Seq<u8>,
                    LoadError,
                >(stream)))
            &&& (deflate_of(stream).len() > SPRITE_SAVE_MAX_SIZE ==> r == Err::<Vec<u8>, _>(
                SaveError::SizeLimit(deflate_of(stream).len() as u64),
            ))
        }),
{
    // the sprite directory is the arena order: slot k has id k+1
    let n_sprites = sys.sprites.len();
    let mut identity: Vec<usize> = Vec::new();
    let mut i: usize = 0;
    while i < n_sprites
        invariant
            identity@.len() == i,
            i <= n_sprites,
            forall|k: int| 0 <= k < i ==> identity@[k] == k,
        decreases n_sprites - i,
    {
        identity.push(i);
        i = i + 1;
    }
    let sprite_dir = SaveMapping::from_order(&identity, n_sprites);
    let ghost dir = sprite_dir@;
    proof {
        assert forall|t: int| 0 <= t < n_sprites implies dir[t] == t + 1 by {
            assert(identity@[t] == t);
            assert(sprite_dir@[identity@[t] as int] == t + 1);
        }
        assert(dir =~= arena_dir_view(sys.sprites@.len() as nat));
    }
    let lone_order = match collect_list(&sys.lone, sys.first_lone) {
        Ok(o) => o,
        Err(e) => {
            return Err(e);
        },
    };
    let fow_order = match collect_list(&sys.lone, sys.first_fow) {
        Ok(o) => o,
        Err(e) => {
            return Err(e);
        },
    };
    proof {
        crate::linked::lemma_walk_order_valid(sys.lone@, sys.first_lone, Seq::<usize>::empty());
        crate::linked::lemma_walk_order_valid(sys.lone@, sys.first_fow, Seq::<usize>::empty());
        crate::linked::lemma_distinct_bounded(lone_order@, sys.lone@.len());
        crate::linked::lemma_distinct_bounded(fow_order@, sys.lone@.len());
    }
    let lone_dir = SaveMapping::from_order(&lone_order, sys.lone.len());
    proof {
        lemma_dir_view(lone_dir@, lone_order@, sys.lone@.len() as nat);
    }
    let cursor_marker = match lone_dir.id(sys.cursor_marker) {
        Ok(v) => v,
        Err(e) => {
            proof {
                assert(spec_save_sprites(sys, grp_count) == Err::<Seq<u8>, SaveError>(e));
            }
            return Err(e);
        },
    };
    let g = SpriteGlobalsSer {
        line_count: sys.hlines_begin.len() as u32,
        sprite_count: n_sprites as u32,
        lone_count: lone_order.len() as u32,
        fow_count: fow_order.len() as u32,
        cursor_marker,
    };
    let mut stream: Vec<u8> = Vec::new();
    put_sprite_globals(&mut stream, &g);
    let ghost acc0 = enc_sprite_globals(g);
    let ghost hb = sys.hlines_begin@;
    let ghost he = sys.hlines_end@;
    proof {
        assert(stream@ =~= acc0);
        assert(stream@.len() == SPRITE_GLOBALS_WIRE);
    }
    // per-scanline bucket heads as (begin id, end id) pairs
    let mut row: usize = 0;
    let n_rows = sys.hlines_begin.len();
    while row < n_rows
        invariant
            row <= n_rows,
            stream@.len() <= SPRITE_SAVE_MAX_SIZE,
            spec_emit_hlines(hb, he, 0, dir, acc0) == spec_emit_hlines(
                hb,
                he,
                row as int,
                dir,
                stream@,
            ),
        decreases n_rows - row,
    {
        let begin = match sprite_dir.id(sys.hlines_begin[row]) {
            Ok(v) => v,
            Err(e) => {
                proof {
                    assert(spec_emit_hlines(hb, he, row as int, dir, stream@) == Err::<
                        Seq<u8>,
                        SaveError,
                    >(e));
                    assert(spec_save_sprites(sys, grp_count) == Err::<Seq<u8>, SaveError>(e));
                }
                return Err(e);
            },
        };
        let end = match sprite_dir.id(sys.hlines_end[row]) {
            Ok(v) => v,
            Err(e) => {
                proof {
                    assert(spec_emit_hlines(hb, he, row as int, dir, stream@) == Err::<
                        Seq<u8>,
                        SaveError,
                    >(e));
                    assert(spec_save_sprites(sys, grp_count) == Err::<Seq<u8>, SaveError>(e));
                }
                return Err(e);
            },
        };
        let ghost pre = stream@;
        put_hline(&mut stream, &HLineSer { begin, end });
        if stream.len() > SPRITE_SAVE_MAX_SIZE as usize {
            proof {
                assert(spec_emit_hlines(hb, he, row as int, dir, pre) == Err::<Seq<u8>, SaveError>(
                    SaveError::SizeLimit(stream@.len() as u64),
                ));
                assert(spec_save_sprites(sys, grp_count) == Err::<Seq<u8>, SaveError>(
                    SaveError::SizeLimit(stream@.len() as u64),
                ));
            }
            return Err(SaveError::SizeLimit(stream.len() as u64));
        }
        proof {
            assert(spec_emit_hlines(hb, he, row as int, dir, pre) == spec_emit_hlines(
                hb,
                he,
                row + 1,
                dir,
                stream@,
            ));
        }
        row = row + 1;
    }
    let ghost hstream = stream@;
    proof {
        assert(spec_emit_hlines(hb, he, 0, dir, acc0) == Ok::<Seq<u8>, SaveError>(hstream));
    }
    // sprite records, each with its filtered image list inline
    let mut k: usize = 0;
    while k < n_sprites
        invariant
            k <= n_sprites,
            stream@.len() <= SPRITE_SAVE_MAX_SIZE,
            spec_emit_sprites_from(sys.sprites@, sys.images@, 0, grp_count, dir, hstream)
                == spec_emit_sprites_from(
                sys.sprites@,
                sys.images@,
                k as int,
                grp_count,
                dir,
                stream@,
            ),
        decreases n_sprites - k,
    {
        let ghost stream_k = stream@;
        let sprite = *sys.sprites.get(k);
        let image_order = match collect_list(&sys.images, sprite.first_overlay) {
            Ok(o) => o,
            Err(e) => {
                proof {
                    assert(spec_emit_sprites_from(
                        sys.sprites@,
                        sys.images@,
                        k as int,
                        grp_count,
                        dir,
                        stream_k,
                    ) == Err::<Seq<u8>, SaveError>(e));
                    assert(spec_save_sprites(sys, grp_count) == Err::<Seq<u8>, SaveError>(e));
                }
                return Err(e);
            },
        };
        proof {
            crate::linked::lemma_walk_order_valid(
                sys.images@,
                sprite.first_overlay,
                Seq::<usize>::empty(),
            );
            crate::linked::lemma_distinct_bounded(image_order@, sys.images@.len());
        }
        // strip selection overlays; remember where the main image lands
        let mut kept: Vec<usize> = Vec::new();
        let mut main_image_id: u32 = 0;
        let mut j: usize = 0;
        while j < image_order.len()
            invariant
                j <= image_order@.len(),
                kept@.len() <= j,
                forall|t: int| 0 <= t < kept@.len() ==> kept@[t] < sys.images@.len(),
                spec_filter_images(
                    sys.images@,
                    image_order@,
                    0,
                    sprite.main_image,
                    Seq::<usize>::empty(),
                    0,
                ) == spec_filter_images(
                    sys.images@,
                    image_order@,
                    j as int,
                    sprite.main_image,
                    kept@,
                    main_image_id,
                ),
            decreases image_order@.len() - j,
        {
            let ghost kept_pre = kept@;
            let ghost main_pre = main_image_id;
            let slot = image_order[j];
            let img = sys.images.get(slot);
            if !is_selection_image(img) {
                kept.push(slot);
                if sprite.main_image == Some(slot) && main_image_id == 0 {
                    main_image_id = kept.len() as u32;
                }
            }
            proof {
                assert(spec_filter_images(
                    sys.images@,
                    image_order@,
                    j as int,
                    sprite.main_image,
                    kept_pre,
                    main_pre,
                ) == spec_filter_images(
                    sys.images@,
                    image_order@,
                    j + 1,
                    sprite.main_image,
                    kept@,
                    main_image_id,
                ));
            }
            j = j + 1;
        }
        let ghost fi = spec_filter_images(
            sys.images@,
            image_order@,
            0,
            sprite.main_image,
            Seq::<usize>::empty(),
            0,
        );
        proof {
            assert(fi.0 == kept@ && fi.1 == main_image_id);
        }
        let prev = match sprite_dir.id(sprite.prev) {
            Ok(v) => v,
            Err(e) => {
                proof {
                    assert(spec_emit_sprites_from(
                        sys.sprites@,
                        sys.images@,
                        k as int,
                        grp_count,
                        dir,
                        stream_k,
                    ) == Err::<Seq<u8>, SaveError>(e));
                    assert(spec_save_sprites(sys, grp_count) == Err::<Seq<u8>, SaveError>(e));
                }
                return Err(e);
            },
        };
        let next = match sprite_dir.id(sprite.next) {
            Ok(v) => v,
            Err(e) => {
                proof {
                    assert(spec_emit_sprites_from(
                        sys.sprites@,
                        sys.images@,
                        k as int,
                        grp_count,
                        dir,
                        stream_k,
                    ) == Err::<Seq<u8>, SaveError>(e));
                    assert(spec_save_sprites(sys, grp_count) == Err::<Seq<u8>, SaveError>(e));
                }
                return Err(e);
            },
        };
        let head = SpriteHeadSer {
            prev,
            next,
            sprite_id: sprite.sprite_id,
            player: sprite.player,
            selection_index: sprite.selection_index,
            visibility_mask: sprite.visibility_mask,
            elevation: sprite.elevation,
            // selection overlays are not saved, so neither are their flags
            flags: sprite.flags & 0xf6,
            selection_flash_timer: sprite.selection_flash_timer,
            index: sprite.index,
            width: sprite.width,
            height: sprite.height,
            position: sprite.position,
            main_image_id,
            spawn_order: sprite.extra.spawn_order,
            image_count: kept.len() as u32,
        };
        proof {
            assert(head == spec_sprite_head(sprite, prev, next, fi.1, fi.0.len() as u32));
        }
        let ghost pre = stream@;
        put_sprite_head(&mut stream, &head);
        if stream.len() > SPRITE_SAVE_MAX_SIZE as usize {
            proof {
                assert(spec_emit_sprites_from(
                    sys.sprites@,
                    sys.images@,
                    k as int,
                    grp_count,
                    dir,
                    stream_k,
                ) == Err::<Seq<u8>, SaveError>(SaveError::SizeLimit(stream@.len() as u64)));
                assert(spec_save_sprites(sys, grp_count) == Err::<Seq<u8>, SaveError>(
                    SaveError::SizeLimit(stream@.len() as u64),
                ));
            }
            return Err(SaveError::SizeLimit(stream.len() as u64));
        }
        let ghost head_stream = stream@;
        let mut t: usize = 0;
        while t < kept.len()
            invariant
                t <= kept@.len(),
                stream@.len() <= SPRITE_SAVE_MAX_SIZE,
                spec_emit_images(sys.images@, kept@, 0, grp_count, head_stream)
                    == spec_emit_images(sys.images@, kept@, t as int, grp_count, stream@),
            decreases kept@.len() - t,
        {
            let slot = kept[t];
            let ser = match image_serializable(sys.images.get(slot), slot, grp_count) {
                Ok(v) => v,
                Err(e) => {
                    proof {
                        assert(spec_emit_images(sys.images@, kept@, t as int, grp_count, stream@)
                            == Err::<Seq<u8>, SaveError>(e));
                        assert(spec_emit_sprites_from(
                            sys.sprites@,
                            sys.images@,
                            k as int,
                            grp_count,
                            dir,
                            stream_k,
                        ) == Err::<Seq<u8>, SaveError>(e));
                        assert(spec_save_sprites(sys, grp_count) == Err::<Seq<u8>, SaveError>(e));
                    }
                    return Err(e);
                },
            };
            let ghost pre2 = stream@;
            put_image_ser(&mut stream, &ser);
            if stream.len() > SPRITE_SAVE_MAX_SIZE as usize {
                proof {
                    assert(spec_emit_images(sys.images@, kept@, t as int, grp_count, pre2)
                        == Err::<Seq<u8>, SaveError>(SaveError::SizeLimit(stream@.len() as u64)));
                    assert(spec_emit_sprites_from(
                        sys.sprites@,
                        sys.images@,
                        k as int,
                        grp_count,
                        dir,
                        stream_k,
                    ) == Err::<Seq<u8>, SaveError>(SaveError::SizeLimit(stream@.len() as u64)));
                    assert(spec_save_sprites(sys, grp_count) == Err::<Seq<u8>, SaveError>(
                        SaveError::SizeLimit(stream@.len() as u64),
                    ));
                }
                return Err(SaveError::SizeLimit(stream.len() as u64));
            }
            proof {
                assert(spec_emit_images(sys.images@, kept@, t as int, grp_count, pre2)
                    == spec_emit_images(sys.images@, kept@, t + 1, grp_count, stream@));
            }
            t = t + 1;
        }
        proof {
            assert(spec_emit_images(sys.images@, kept@, 0, grp_count, head_stream) == Ok::<
                Seq<u8>,
                SaveError,
            >(stream@));
            assert(spec_emit_sprites_from(
                sys.sprites@,
                sys.images@,
                k as int,
                grp_count,
                dir,
                stream_k,
            ) == spec_emit_sprites_from(
                sys.sprites@,
                sys.images@,
                k + 1,
                grp_count,
                dir,
                stream@,
            ));
        }
        k = k + 1;
    }
    let ghost sstream = stream@;
    proof {
        assert(spec_emit_sprites_from(sys.sprites@, sys.images@, 0, grp_count, dir, hstream)
            == Ok::<Seq<u8>, SaveError>(sstream));
    }
    // standalone sprites: the lone list first, then the fog list
    let mut li: usize = 0;
    while li < lone_order.len()
        invariant
            li <= lone_order@.len(),
            stream@.len() <= SPRITE_SAVE_MAX_SIZE,
            spec_emit_lones(sys.lone@, lone_order@, 0, dir, sstream) == spec_emit_lones(
                sys.lone@,
                lone_order@,
                li as int,
                dir,
                stream@,
            ),
        decreases lone_order@.len() - li,
    {
        let ser = match lone_sprite_serializable(sys.lone.get(lone_order[li]), &sprite_dir) {
            Ok(v) => v,
            Err(e) => {
                proof {
                    assert(spec_emit_lones(sys.lone@, lone_order@, li as int, dir, stream@)
                        == Err::<Seq<u8>, SaveError>(e));
                    assert(spec_save_sprites(sys, grp_count) == Err::<Seq<u8>, SaveError>(e));
                }
                return Err(e);
            },
        };
        let ghost pre = stream@;
        put_lone_ser(&mut stream, &ser);
        if stream.len() > SPRITE_SAVE_MAX_SIZE as usize {
            proof {
                assert(spec_emit_lones(sys.lone@, lone_order@, li as int, dir, pre) == Err::<
                    Seq<u8>,
                    SaveError,
                >(SaveError::SizeLimit(stream@.len() as u64)));
                assert(spec_save_sprites(sys, grp_count) == Err::<Seq<u8>, SaveError>(
                    SaveError::SizeLimit(stream@.len() as u64),
                ));
            }
            return Err(SaveError::SizeLimit(stream.len() as u64));
        }
        proof {
            assert(spec_emit_lones(sys.lone@, lone_order@, li as int, dir, pre) == spec_emit_lones(
                sys.lone@,
                lone_order@,
                li + 1,
                dir,
                stream@,
            ));
        }
        li = li + 1;
    }
    let ghost lstream = stream@;
    proof {
        assert(spec_emit_lones(sys.lone@, lone_order@, 0, dir, sstream) == Ok::<Seq<u8>, SaveError>(
            lstream,
        ));
    }
    let mut fi2: usize = 0;
    while fi2 < fow_order.len()
        invariant
            fi2 <= fow_order@.len(),
            stream@.len() <= SPRITE_SAVE_MAX_SIZE,
            spec_emit_lones(sys.lone@, fow_order@, 0, dir, lstream) == spec_emit_lones(
                sys.lone@,
                fow_order@,
                fi2 as int,
                dir,
                stream@,
            ),
        decreases fow_order@.len() - fi2,
    {
        let ser = match lone_sprite_serializable(sys.lone.get(fow_order[fi2]), &sprite_dir) {
            Ok(v) => v,
            Err(e) => {
                proof {
                    assert(spec_emit_lones(sys.lone@, fow_order@, fi2 as int, dir, stream@)
                        == Err::<Seq<u8>, SaveError>(e));
                    assert(spec_save_sprites(sys, grp_count) == Err::<Seq<u8>, SaveError>(e));
                }
                return Err(e);
            },
        };
        let ghost pre = stream@;
        put_lone_ser(&mut stream, &ser);
        if stream.len() > SPRITE_SAVE_MAX_SIZE as usize {
            proof {
                assert(spec_emit_lones(sys.lone@, fow_order@, fi2 as int, dir, pre) == Err::<
                    Seq<u8>,
                    SaveError,
                >(SaveError::SizeLimit(stream@.len() as u64)));
                assert(spec_save_sprites(sys, grp_count) == Err::<Seq<u8>, SaveError>(
                    SaveError::SizeLimit(stream@.len() as u64),
                ));
            }
            return Err(SaveError::SizeLimit(stream.len() as u64));
        }
        proof {
            assert(spec_emit_lones(sys.lone@, fow_order@, fi2 as int, dir, pre) == spec_emit_lones(
                sys.lone@,
                fow_order@,
                fi2 + 1,
                dir,
                stream@,
            ));
        }
        fi2 = fi2 + 1;
    }
    proof {
        assert(spec_emit_lones(sys.lone@, fow_order@, 0, dir, lstream) == Ok::<Seq<u8>, SaveError>(
            stream@,
        ));
        assert(spec_save_sprites(sys, grp_count) == Ok::<Seq<u8>, SaveError>(stream@));
    }
    match seal_chunk(&stream, SPRITE_SAVE_MAGIC, SPRITE_SAVE_MAX_SIZE) {
        Ok(b) => Ok(b),
        Err(e) => Err(e),
    }
}

/// What `RawVec::place_at` leaves in a pool: the written slot holds the
/// value, slots the write grew past hold the blank, every other slot is
/// untouched.
pub open spec fn spec_place_at(pool: Seq<Image>, slot: int, img: Image, blank: Image) -> Seq<
    Image,
> {
    let n = if slot + 1 > pool.len() {
        slot + 1
    } else {
        pool.len() as int
    };
    Seq::new(
        n as nat,
        |j: int|
            if j == slot {
                img
            } else if j < pool.len() {
                pool[j]
            } else {
                blank
            },
    )
}

/// The bucket rows a load decodes from `pos` on, resolved through the
/// sprite directory, with the byte position after them; or the exact
/// error: truncation first, then an id past the directory.
pub open spec fn spec_load_hlines(
    stream: Seq<u8>,
    pos: int,
    rows: nat,
    slots: Seq<usize>,
    begin: Seq<Option<usize>>,
    end: Seq<Option<usize>>,
) -> Result<(Seq<Option<usize>>, Seq<Option<usize>>, int), LoadError>
    decreases rows,
{
    if rows == 0 {
        Ok((begin, end, pos))
    } else if pos + HLINE_WIRE > stream.len() {
        Err(LoadError::Serialize)
    } else {
        let hl = dec_hline_at(stream, pos);
        let b = spec_pointer_seq(slots, hl.begin);
        if b is Err {
            Err(b->Err_0)
        } else {
            let e = spec_pointer_seq(slots, hl.end);
            if e is Err {
                Err(e->Err_0)
            } else {
                spec_load_hlines(
                    stream,
                    pos + HLINE_WIRE,
                    (rows - 1) as nat,
                    slots,
                    begin.push(b->Ok_0),
                    end.push(e->Ok_0),
                )
            }
        }
    }
}

/// One sprite's overlay records decoded from `pos` on: each image lands in
/// the arena slot its record names (growing the arena with blanks where the
/// slot lies past its end), is chained behind the record before it and
/// parented to the loading sprite. Yields the arena, the chain's head and
/// tail, the kept slots in record order and the position after the records;
/// or the exact error: truncation, then an undecodable record, then a slot
/// past the image arena's capacity.
pub open spec fn spec_load_images(
    stream: Seq<u8>,
    pos: int,
    count: nat,
    grp_count: u32,
    parent: usize,
    pool: Seq<Image>,
    first: Option<usize>,
    last: Option<usize>,
    list: Seq<usize>,
) -> Result<(Seq<Image>, Option<usize>, Option<usize>, Seq<usize>, int), LoadError>
    decreases count,
{
    if count == 0 {
        Ok((pool, first, last, list, pos))
    } else if pos + IMAGE_SER_WIRE > stream.len() {
        Err(LoadError::Serialize)
    } else {
        let ser = dec_image_ser_at(stream, pos);
        let img0 = spec_image_from_ser(ser, grp_count);
        if img0 is Err {
            Err(img0->Err_0)
        } else if ser.slot >= IMAGE_LIMIT as u32 {
            Err(LoadError::Corrupted(ser.slot))
        } else {
            let slot = ser.slot as usize;
            let img = Image { parent: Some(parent), prev: last, next: None, ..img0->Ok_0 };
            let pool1 = if last is Some {
                pool.update(
                    last->Some_0 as int,
                    Image { next: Some(slot), ..pool[last->Some_0 as int] },
                )
            } else {
                pool
            };
            let first1 = if last is None {
                Some(slot)
            } else {
                first
            };
            let pool2 = spec_place_at(pool1, slot as int, img, spec_blank_image());
            spec_load_images(
                stream,
                pos + IMAGE_SER_WIRE,
                (count - 1) as nat,
                grp_count,
                parent,
                pool2,
                first1,
                Some(slot),
                list.push(slot),
            )
        }
    }
}

/// The sprite records a load decodes from `pos` on, each head followed by
/// its inline overlay records: list links resolve through the directory,
/// the overlay head and tail come from the image chain rebuild, and the
/// 1-based main-image position resolves within the kept records -- null
/// for 0, corruption past their count. Yields the sprites, the image
/// arena and the position after the records, or the exact first error.
pub open spec fn spec_load_sprite_records(
    stream: Seq<u8>,
    pos: int,
    count: nat,
    grp_count: u32,
    slots: Seq<usize>,
    sprites: Seq<Sprite>,
    images: Seq<Image>,
) -> Result<(Seq<Sprite>, Seq<Image>, int), LoadError>
    decreases count,
{
    if count == 0 {
        Ok((sprites, images, pos))
    } else if pos + SPRITE_HEAD_WIRE > stream.len() {
        Err(LoadError::Serialize)
    } else {
        let head = dec_sprite_head_at(stream, pos);
        let prev = spec_pointer_seq(slots, head.prev);
        if prev is Err {
            Err(prev->Err_0)
        } else {
            let next = spec_pointer_seq(slots, head.next);
            if next is Err {
                Err(next->Err_0)
            } else {
                let im = spec_load_images(
                    stream,
                    pos + SPRITE_HEAD_WIRE,
                    head.image_count as nat,
                    grp_count,
                    sprites.len() as usize,
                    images,
                    None,
                    None,
                    Seq::<usize>::empty(),
                );
                if im is Err {
                    Err(im->Err_0)
                } else if head.main_image_id != 0 && head.main_image_id > im->Ok_0.3.len() {
                    Err(LoadError::Corrupted(head.main_image_id))
                } else {
                    let main = if head.main_image_id == 0 {
                        None
                    } else {
                        Some(im->Ok_0.3[head.main_image_id - 1])
                    };
                    let sp = Sprite {
                        prev: prev->Ok_0,
                        next: next->Ok_0,
                        sprite_id: head.sprite_id,
                        player: head.player,
                        selection_index: head.selection_index,
                        visibility_mask: head.visibility_mask,
                        elevation: head.elevation,
                        flags: head.flags,
                        selection_flash_timer: head.selection_flash_timer,
                        index: head.index,
                        width: head.width,
                        height: head.height,
                        position: head.position,
                        main_image: main,
                        first_overlay: im->Ok_0.1,
                        last_overlay: im->Ok_0.2,
                        extra: SpriteExtension { spawn_order: head.spawn_order },
                    };
                    spec_load_sprite_records(
                        stream,
                        im->Ok_0.4,
                        (count - 1) as nat,
                        grp_count,
                        slots,
                        sprites.push(sp),
                        im->Ok_0.0,
                    )
                }
            }
        }
    }
}

/// The standalone-sprite records a load decodes from `pos` on, each sprite
/// reference resolved through the sprite directory; the batch re-link
/// happens afterwards, over the whole batch at once.
pub open spec fn spec_load_lones(
    stream: Seq<u8>,
    pos: int,
    count: nat,
    slots: Seq<usize>,
    acc: Seq<LoneSprite>,
) -> Result<Seq<LoneSprite>, LoadError>
    decreases count,
{
    if count == 0 {
        Ok(acc)
    } else {
        let l = spec_lone_from_ser(dec_lone_ser_at(stream, pos), slots);
        if l is Err {
            Err(l->Err_0)
        } else {
            spec_load_lones(stream, pos + LONE_SER_WIRE, (count - 1) as nat, slots, acc.push(
                l->Ok_0,
            ))
        }
    }
}

/// The standalone batch re-linked with a null boundary between the lone
/// list (`0..boundary`) and the fog list (`boundary..len`).
pub open spec fn spec_relink_lones(pool: Seq<LoneSprite>, boundary: int) -> Seq<LoneSprite> {
    Seq::new(
        pool.len(),
        |k: int|
            LoneSprite {
                prev: if k == 0 || k == boundary {
                    None
                } else {
                    Some((k - 1) as usize)
                },
                next: if k + 1 == boundary || k + 1 == pool.len() {
                    None
                } else {
                    Some((k + 1) as usize)
                },
                ..pool[k]
            },
    )
}

/// The whole rebuilt sprite state a load installs.
pub struct SpriteLoad {
    pub sprites: Seq<Sprite>,
    pub images: Seq<Image>,
    pub lone: Seq<LoneSprite>,
    pub first_lone: Option<usize>,
    pub last_lone: Option<usize>,
    pub first_fow: Option<usize>,
    pub last_fow: Option<usize>,
    pub hlines_begin: Seq<Option<usize>>,
    pub hlines_end: Seq<Option<usize>>,
    pub cursor_marker: Option<usize>,
}

/// The view of a live sprite system, as one value.
pub open spec fn spec_sprite_state(sys: &SpriteSystem) -> SpriteLoad {
    SpriteLoad {
        sprites: sys.sprites@,
        images: sys.images@,
        lone: sys.lone@,
        first_lone: sys.first_lone,
        last_lone: sys.last_lone,
        first_fow: sys.first_fow,
        last_fow: sys.last_fow,
        hlines_begin: sys.hlines_begin@,
        hlines_end: sys.hlines_end@,
        cursor_marker: sys.cursor_marker,
    }
}

/// The exact state a sprite chunk loads to, or the exact error it is
/// rejected with: envelope errors first, then a sprite count past the
/// arena, then truncation and per-record errors in decode order, then a
/// cursor-marker id past the standalone directory.
pub open spec fn spec_load_sprites(data: Seq<u8>, grp_count: u32) -> Result<
    SpriteLoad,
    LoadError,
> {
    let c = spec_open_chunk(data, SPRITE_SAVE_MAGIC, SPRITE_SAVE_MAX_SIZE);
    if c is Err {
        Err(c->Err_0)
    } else {
        let s = c->Ok_0;
        if s.len() < SPRITE_GLOBALS_WIRE {
            Err(LoadError::Serialize)
        } else {
            let g = dec_sprite_globals_at(s, 0);
            if g.sprite_count > SPRITE_LIMIT as u32 {
                Err(LoadError::Corrupted(g.sprite_count))
            } else {
                let slots = dense_view(g.sprite_count as nat);
                let hl = spec_load_hlines(
                    s,
                    SPRITE_GLOBALS_WIRE as int,
                    g.line_count as nat,
                    slots,
                    Seq::<Option<usize>>::empty(),
                    Seq::<Option<usize>>::empty(),
                );
                if hl is Err {
                    Err(hl->Err_0)
                } else {
                    let sp = spec_load_sprite_records(
                        s,
                        hl->Ok_0.2,
                        g.sprite_count as nat,
                        grp_count,
                        slots,
                        Seq::<Sprite>::empty(),
                        Seq::<Image>::empty(),
                    );
                    if sp is Err {
                        Err(sp->Err_0)
                    } else {
                        let total = g.lone_count + g.fow_count;
                        if total * LONE_SER_WIRE > s.len() - sp->Ok_0.2 {
                            Err(LoadError::Serialize)
                        } else {
                            let lo = spec_load_lones(
                                s,
                                sp->Ok_0.2,
                                total as nat,
                                slots,
                                Seq::<LoneSprite>::empty(),
                            );
                            if lo is Err {
                                Err(lo->Err_0)
                            } else {
                                let cm = spec_pointer_seq(dense_view(total as nat), g.cursor_marker);
                                if cm is Err {
                                    Err(cm->Err_0)
                                } else {
                                    Ok(SpriteLoad {
                                        sprites: sp->Ok_0.0,
                                        images: sp->Ok_0.1,
                                        lone: spec_relink_lones(lo->Ok_0, g.lone_count as int),
                                        first_lone: if g.lone_count > 0 {
                                            Some(0usize)
                                        } else {
                                            None
                                        },
                                        last_lone: if g.lone_count > 0 {
                                            Some((g.lone_count - 1) as usize)
                                        } else {
                                            None
                                        },
                                        first_fow: if g.fow_count > 0 {
                                            Some(g.lone_count as usize)
                                        } else {
                                            None
                                        },
                                        last_fow: if g.fow_count > 0 {
                                            Some((g.lone_count + g.fow_count - 1) as usize)
                                        } else {
                                            None
                                        },
                                        hlines_begin: hl->Ok_0.0,
                                        hlines_end: hl->Ok_0.1,
                                        cursor_marker: cm->Ok_0,
                                    })
                                }
                            }
                        }
                    }
                }
            }
        }
    }
}

/// Loads the sprite chunk: opens and bounds-checks the envelope, restores
/// every sprite into its arena slot in record order (the load directory
/// is the arena order), places each image back into the image arena slot
/// its record names and rewires the overlay list links, re-links the
/// standalone batch with a null boundary between the lone and the fog
/// list, and resolves the bucket heads and the cursor marker. Returns the
/// rebuilt system together with the sprite and standalone-sprite load
/// directories the other chunks of the same load resolve through.
///
/// The contract is exact: the load succeeds with precisely the state
/// `spec_load_sprites` describes, and fails with precisely the error it
/// reports.
#[verifier::rlimit(100)]
#[verifier::spinoff_prover]
#[verifier::loop_isolation(false)]
pub fn load_sprites(data: &Vec<u8>, grp_count: u32) -> (r: Result<
    (SpriteSystem, LoadMapping, LoadMapping),
    LoadError,
>)
    ensures
        r matches Err(e) ==> spec_load_sprites(data@, grp_count) == Err::<SpriteLoad, _>(e),
        r matches Ok(out) ==> ({
            let s = spec_open_chunk(data@, SPRITE_SAVE_MAGIC, SPRITE_SAVE_MAX_SIZE)->Ok_0;
            let g = dec_sprite_globals_at(s, 0);
            &&& spec_load_sprites(data@, grp_count) == Ok::<SpriteLoad, LoadError>(
                spec_sprite_state(&out.0),
            )
            &&& spec_open_chunk(data@, SPRITE_SAVE_MAGIC, SPRITE_SAVE_MAX_SIZE) is Ok
            &&& out.0.sprites@.len() == g.sprite_count
            &&& out.1@ == dense_view(g.sprite_count as nat)
            &&& out.0.lone@.len() == g.lone_count + g.fow_count
            &&& out.2@ == dense_view((g.lone_count + g.fow_count) as nat)
            &&& out.0.hlines_begin@.len() == g.line_count
            &&& out.0.hlines_end@.len() == g.line_count
        }),
{
    let ghost spec_r = spec_load_sprites(data@, grp_count);
    let stream = match open_chunk(data, SPRITE_SAVE_MAGIC, SPRITE_SAVE_MAX_SIZE) {
        Ok(s) => s,
        Err(e) => {
            proof {
                assert(spec_r == Err::<SpriteLoad, LoadError>(e));
            }
            return Err(e);
        },
    };
    let ghost sv = stream@;
    if stream.len() < SPRITE_GLOBALS_WIRE {
        proof {
            assert(spec_r == Err::<SpriteLoad, LoadError>(LoadError::Serialize));
        }
        return Err(LoadError::Serialize);
    }
    let g = get_sprite_globals(&stream, 0);
    if g.sprite_count > SPRITE_LIMIT as u32 {
        proof {
            assert(spec_r == Err::<SpriteLoad, LoadError>(LoadError::Corrupted(g.sprite_count)));
        }
        return Err(LoadError::Corrupted(g.sprite_count));
    }
    let sprite_count = g.sprite_count as usize;
    let sprite_lm = LoadMapping::dense(sprite_count);
    let ghost slots = sprite_lm@;
    let stream_len = stream.len();
    let mut pos: usize = SPRITE_GLOBALS_WIRE;
    let rows = g.line_count as usize;
    let mut hlines_begin: Vec<Option<usize>> = Vec::new();
    let mut hlines_end: Vec<Option<usize>> = Vec::new();
    let mut row: usize = 0;
    while row < rows
        invariant
            row <= rows,
            hlines_begin@.len() == row,
            hlines_end@.len() == row,
            pos <= stream_len,
            spec_load_hlines(
                sv,
                SPRITE_GLOBALS_WIRE as int,
                rows as nat,
                slots,
                Seq::<Option<usize>>::empty(),
                Seq::<Option<usize>>::empty(),
            ) == spec_load_hlines(
                sv,
                pos as int,
                (rows - row) as nat,
                slots,
                hlines_begin@,
                hlines_end@,
            ),
        decreases rows - row,
    {
        if stream_len - pos < HLINE_WIRE {
            proof {
                assert(spec_load_hlines(
                    sv,
                    pos as int,
                    (rows - row) as nat,
                    slots,
                    hlines_begin@,
                    hlines_end@,
                ) == Err::<(Seq<Option<usize>>, Seq<Option<usize>>, int), LoadError>(
                    LoadError::Serialize,
                ));
                assert(spec_r == Err::<SpriteLoad, LoadError>(LoadError::Serialize));
            }
            return Err(LoadError::Serialize);
        }
        let hl = get_hline(&stream, pos);
        let ghost pre_pos = pos as int;
        let ghost pre_b = hlines_begin@;
        let ghost pre_e = hlines_end@;
        pos = pos + HLINE_WIRE;
        let begin = match sprite_lm.pointer(hl.begin) {
            Ok(v) => v,
            Err(e) => {
                proof {
                    assert(spec_load_hlines(sv, pre_pos, (rows - row) as nat, slots, pre_b, pre_e)
                        == Err::<(Seq<Option<usize>>, Seq<Option<usize>>, int), LoadError>(e));
                    assert(spec_r == Err::<SpriteLoad, LoadError>(e));
                }
                return Err(e);
            },
        };
        let end = match sprite_lm.pointer(hl.end) {
            Ok(v) => v,
            Err(e) => {
                proof {
                    assert(spec_load_hlines(sv, pre_pos, (rows - row) as nat, slots, pre_b, pre_e)
                        == Err::<(Seq<Option<usize>>, Seq<Option<usize>>, int), LoadError>(e));
                    assert(spec_r == Err::<SpriteLoad, LoadError>(e));
                }
                return Err(e);
            },
        };
        hlines_begin.push(begin);
        hlines_end.push(end);
        proof {
            assert(spec_load_hlines(sv, pre_pos, (rows - row) as nat, slots, pre_b, pre_e)
                == spec_load_hlines(
                sv,
                pos as int,
                (rows - row - 1) as nat,
                slots,
                hlines_begin@,
                hlines_end@,
            ));
        }
        row = row + 1;
    }
    let ghost hl_ok = (hlines_begin@, hlines_end@, pos as int);
    proof {
        assert(spec_load_hlines(
            sv,
            SPRITE_GLOBALS_WIRE as int,
            rows as nat,
            slots,
            Seq::<Option<usize>>::empty(),
            Seq::<Option<usize>>::empty(),
        ) == Ok::<(Seq<Option<usize>>, Seq<Option<usize>>, int), LoadError>(hl_ok));
    }
    let ghost pos_h = pos as int;
    let mut sprites_pool: RawVec<Sprite> = RawVec::with_capacity(SPRITE_LIMIT);
    let mut images_pool: RawVec<Image> = RawVec::with_capacity(IMAGE_LIMIT);
    let mut k: usize = 0;
    while k < sprite_count
        invariant
            k <= sprite_count,
            sprites_pool@.len() == k,
            sprites_pool.spec_capacity() == SPRITE_LIMIT,
            images_pool.spec_capacity() == IMAGE_LIMIT,
            images_pool@.len() <= IMAGE_LIMIT,
            pos <= stream_len,
            spec_load_sprite_records(
                sv,
                pos_h,
                sprite_count as nat,
                grp_count,
                slots,
                Seq::<Sprite>::empty(),
                Seq::<Image>::empty(),
            ) == spec_load_sprite_records(
                sv,
                pos as int,
                (sprite_count - k) as nat,
                grp_count,
                slots,
                sprites_pool@,
                images_pool@,
            ),
        decreases sprite_count - k,
    {
        let ghost pre_pos = pos as int;
        let ghost pre_sprites = sprites_pool@;
        let ghost pre_images = images_pool@;
        if stream_len - pos < SPRITE_HEAD_WIRE {
            proof {
                assert(spec_load_sprite_records(
                    sv,
                    pre_pos,
                    (sprite_count - k) as nat,
                    grp_count,
                    slots,
                    pre_sprites,
                    pre_images,
                ) == Err::<(Seq<Sprite>, Seq<Image>, int), LoadError>(LoadError::Serialize));
                assert(spec_r == Err::<SpriteLoad, LoadError>(LoadError::Serialize));
            }
            return Err(LoadError::Serialize);
        }
        let head = get_sprite_head(&stream, pos);
        pos = pos + SPRITE_HEAD_WIRE;
        let prev = match sprite_lm.pointer(head.prev) {
            Ok(v) => v,
            Err(e) => {
                proof {
                    assert(spec_load_sprite_records(
                        sv,
                        pre_pos,
                        (sprite_count - k) as nat,
                        grp_count,
                        slots,
                        pre_sprites,
                        pre_images,
                    ) == Err::<(Seq<Sprite>, Seq<Image>, int), LoadError>(e));
                    assert(spec_r == Err::<SpriteLoad, LoadError>(e));
                }
                return Err(e);
            },
        };
        let next = match sprite_lm.pointer(head.next) {
            Ok(v) => v,
            Err(e) => {
                proof {
                    assert(spec_load_sprite_records(
                        sv,
                        pre_pos,
                        (sprite_count - k) as nat,
                        grp_count,
                        slots,
                        pre_sprites,
                        pre_images,
                    ) == Err::<(Seq<Sprite>, Seq<Image>, int), LoadError>(e));
                    assert(spec_r == Err::<SpriteLoad, LoadError>(e));
                }
                return Err(e);
            },
        };
        let icount = head.image_count;
        let ghost pos_i0 = pos as int;
        let ghost pool_k = images_pool@;
        let mut first: Option<usize> = None;
        let mut last: Option<usize> = None;
        let mut list: Vec<usize> = Vec::new();
        let mut t: u32 = 0;
        while t < icount
            invariant
                t <= icount,
                pos <= stream_len,
                images_pool.spec_capacity() == IMAGE_LIMIT,
                images_pool@.len() <= IMAGE_LIMIT,
                last matches Some(p) ==> p < images_pool@.len(),
                forall|x: int| 0 <= x < list@.len() ==> list@[x] < images_pool@.len(),
                spec_load_images(
                    sv,
                    pos_i0,
                    icount as nat,
                    grp_count,
                    k,
                    pool_k,
                    None,
                    None,
                    Seq::<usize>::empty(),
                ) == spec_load_images(
                    sv,
                    pos as int,
                    (icount - t) as nat,
                    grp_count,
                    k,
                    images_pool@,
                    first,
                    last,
                    list@,
                ),
            decreases icount - t,
        {
            let ghost ipre_pos = pos as int;
            let ghost ipre_pool = images_pool@;
            let ghost ipre_first = first;
            let ghost ipre_last = last;
            let ghost ipre_list = list@;
            if stream_len - pos < IMAGE_SER_WIRE {
                proof {
                    assert(spec_load_images(
                        sv,
                        ipre_pos,
                        (icount - t) as nat,
                        grp_count,
                        k,
                        ipre_pool,
                        ipre_first,
                        ipre_last,
                        ipre_list,
                    ) == Err::<(Seq<Image>, Option<usize>, Option<usize>, Seq<usize>, int), LoadError>(
                        LoadError::Serialize,
                    ));
                    assert(spec_load_sprite_records(
                        sv,
                        pre_pos,
                        (sprite_count - k) as nat,
                        grp_count,
                        slots,
                        pre_sprites,
                        pre_images,
                    ) == Err::<(Seq<Sprite>, Seq<Image>, int), LoadError>(LoadError::Serialize));
                    assert(spec_r == Err::<SpriteLoad, LoadError>(LoadError::Serialize));
                }
                return Err(LoadError::Serialize);
            }
            let ser = get_image_ser(&stream, pos);
            pos = pos + IMAGE_SER_WIRE;
            let mut img = match deserialize_image(&ser, grp_count) {
                Ok(v) => v,
                Err(e) => {
                    proof {
                        assert(spec_load_images(
                            sv,
                            ipre_pos,
                            (icount - t) as nat,
                            grp_count,
                            k,
                            ipre_pool,
                            ipre_first,
                            ipre_last,
                            ipre_list,
                        ) == Err::<
                            (Seq<Image>, Option<usize>, Option<usize>, Seq<usize>, int),
                            LoadError,
                        >(e));
                        assert(spec_load_sprite_records(
                            sv,
                            pre_pos,
                            (sprite_count - k) as nat,
                            grp_count,
                            slots,
                            pre_sprites,
                            pre_images,
                        ) == Err::<(Seq<Sprite>, Seq<Image>, int), LoadError>(e));
                        assert(spec_r == Err::<SpriteLoad, LoadError>(e));
                    }
                    return Err(e);
                },
            };
            if ser.slot >= IMAGE_LIMIT as u32 {
                proof {
                    assert(spec_load_images(
                        sv,
                        ipre_pos,
                        (icount - t) as nat,
                        grp_count,
                        k,
                        ipre_pool,
                        ipre_first,
                        ipre_last,
                        ipre_list,
                    ) == Err::<(Seq<Image>, Option<usize>, Option<usize>, Seq<usize>, int), LoadError>(
                        LoadError::Corrupted(ser.slot),
                    ));
                    assert(spec_load_sprite_records(
                        sv,
                        pre_pos,
                        (sprite_count - k) as nat,
                        grp_count,
                        slots,
                        pre_sprites,
                        pre_images,
                    ) == Err::<(Seq<Sprite>, Seq<Image>, int), LoadError>(LoadError::Corrupted(
                        ser.slot,
                    )));
                    assert(spec_r == Err::<SpriteLoad, LoadError>(LoadError::Corrupted(ser.slot)));
                }
                return Err(LoadError::Corrupted(ser.slot));
            }
            let slot = ser.slot as usize;
            img.parent = Some(k);
            img.prev = last;
            img.next = None;
            match last {
                Some(p) => {
                    let mut pimg = *images_pool.get(p);
                    pimg.next = Some(slot);
                    images_pool.set(p, pimg);
                },
                None => {
                    first = Some(slot);
                },
            }
            let ghost pool1 = images_pool@;
            images_pool.place_at(slot, img, blank_image());
            last = Some(slot);
            list.push(slot);
            proof {
                assert(images_pool@ =~= spec_place_at(pool1, slot as int, img, spec_blank_image()));
                assert(spec_load_images(
                    sv,
                    ipre_pos,
                    (icount - t) as nat,
                    grp_count,
                    k,
                    ipre_pool,
                    ipre_first,
                    ipre_last,
                    ipre_list,
                ) == spec_load_images(
                    sv,
                    pos as int,
                    (icount - t - 1) as nat,
                    grp_count,
                    k,
                    images_pool@,
                    first,
                    last,
                    list@,
                ));
            }
            t = t + 1;
        }
        let ghost im_ok = (images_pool@, first, last, list@, pos as int);
        proof {
            assert(spec_load_images(
                sv,
                pos_i0,
                icount as nat,
                grp_count,
                k,
                pool_k,
                None,
                None,
                Seq::<usize>::empty(),
            ) == Ok::<(Seq<Image>, Option<usize>, Option<usize>, Seq<usize>, int), LoadError>(
                im_ok,
            ));
        }
        let main_image: Option<usize> = if head.main_image_id == 0 {
            None
        } else if head.main_image_id as usize <= list.len() {
            Some(list[(head.main_image_id - 1) as usize])
        } else {
            proof {
                assert(spec_load_sprite_records(
                    sv,
                    pre_pos,
                    (sprite_count - k) as nat,
                    grp_count,
                    slots,
                    pre_sprites,
                    pre_images,
                ) == Err::<(Seq<Sprite>, Seq<Image>, int), LoadError>(LoadError::Corrupted(
                    head.main_image_id,
                )));
                assert(spec_r == Err::<SpriteLoad, LoadError>(LoadError::Corrupted(
                    head.main_image_id,
                )));
            }
            return Err(LoadError::Corrupted(head.main_image_id));
        };
        let _ = sprites_pool.push(
            Sprite {
                prev,
                next,
                sprite_id: head.sprite_id,
                player: head.player,
                selection_index: head.selection_index,
                visibility_mask: head.visibility_mask,
                elevation: head.elevation,
                flags: head.flags,
                selection_flash_timer: head.selection_flash_timer,
                index: head.index,
                width: head.width,
                height: head.height,
                position: head.position,
                main_image,
                first_overlay: first,
                last_overlay: last,
                extra: SpriteExtension { spawn_order: head.spawn_order },
            },
        );
        proof {
            assert(spec_load_sprite_records(
                sv,
                pre_pos,
                (sprite_count - k) as nat,
                grp_count,
                slots,
                pre_sprites,
                pre_images,
            ) == spec_load_sprite_records(
                sv,
                pos as int,
                (sprite_count - k - 1) as nat,
                grp_count,
                slots,
                sprites_pool@,
                images_pool@,
            ));
        }
        k = k + 1;
    }
    let ghost sp_ok = (sprites_pool@, images_pool@, pos as int);
    proof {
        assert(spec_load_sprite_records(
            sv,
            pos_h,
            sprite_count as nat,
            grp_count,
            slots,
            Seq::<Sprite>::empty(),
            Seq::<Image>::empty(),
        ) == Ok::<(Seq<Sprite>, Seq<Image>, int), LoadError>(sp_ok));
    }
    // the lone list and the fog list load as one batch
    let total64 = g.lone_count as u64 + g.fow_count as u64;
    proof {
        assert(total64 * (LONE_SER_WIRE as u64) <= 0x2_0000_0000u64 * 8u64) by (nonlinear_arith)
            requires total64 <= 0x2_0000_0000u64;
    }
    if total64 * (LONE_SER_WIRE as u64) > (stream_len - pos) as u64 {
        proof {
            assert(spec_r == Err::<SpriteLoad, LoadError>(LoadError::Serialize));
        }
        return Err(LoadError::Serialize);
    }
    proof {
        assert(total64 <= total64 * (LONE_SER_WIRE as u64)) by (nonlinear_arith)
            requires total64 <= 0x2_0000_0000u64;
    }
    let total = total64 as usize;
    let boundary = g.lone_count as usize;
    let ghost pos_l0 = pos as int;
    proof {
        assert(total == total64);
        assert(pos + total * LONE_SER_WIRE <= stream_len) by (nonlinear_arith)
            requires
                total64 * (LONE_SER_WIRE as u64) <= stream_len - pos,
                total == total64,
                pos <= stream_len,
                LONE_SER_WIRE == 8;
    }
    let lone_lm = LoadMapping::dense(total);
    let mut lone_pool: RawVec<LoneSprite> = RawVec::with_capacity(total);
    let mut li: usize = 0;
    while li < total
        invariant
            li <= total,
            lone_pool@.len() == li,
            lone_pool.spec_capacity() == total,
            pos + (total - li) * LONE_SER_WIRE <= stream_len,
            pos as int == pos_l0 + li * LONE_SER_WIRE,
            spec_load_lones(sv, pos_l0, total as nat, slots, Seq::<LoneSprite>::empty())
                == spec_load_lones(sv, pos as int, (total - li) as nat, slots, lone_pool@),
        decreases total - li,
    {
        proof {
            assert((total - li) * LONE_SER_WIRE == (total - li - 1) * LONE_SER_WIRE
                + LONE_SER_WIRE) by (nonlinear_arith)
                requires li < total;
            assert((total - li - 1) * LONE_SER_WIRE >= 0) by (nonlinear_arith)
                requires li < total;
        }
        let ghost lpre_pos = pos as int;
        let ghost lpre_pool = lone_pool@;
        let ser = get_lone_ser(&stream, pos);
        pos = pos + LONE_SER_WIRE;
        let l = match deserialize_lone_sprite(&ser, &sprite_lm) {
            Ok(v) => v,
            Err(e) => {
                proof {
                    assert(spec_load_lones(sv, lpre_pos, (total - li) as nat, slots, lpre_pool)
                        == Err::<Seq<LoneSprite>, LoadError>(e));
                    assert(spec_r == Err::<SpriteLoad, LoadError>(e));
                }
                return Err(e);
            },
        };
        let _ = lone_pool.push(l);
        proof {
            assert((li + 1) * LONE_SER_WIRE == li * LONE_SER_WIRE + LONE_SER_WIRE)
                by (nonlinear_arith);
            assert(spec_load_lones(sv, lpre_pos, (total - li) as nat, slots, lpre_pool)
                == spec_load_lones(sv, pos as int, (total - li - 1) as nat, slots, lone_pool@));
        }
        li = li + 1;
    }
    let ghost lo_ok = lone_pool@;
    proof {
        assert(spec_load_lones(sv, pos_l0, total as nat, slots, Seq::<LoneSprite>::empty())
            == Ok::<Seq<LoneSprite>, LoadError>(lo_ok));
    }
    relink_lone_lists(&mut lone_pool, boundary);
    proof {
        assert(lone_pool@ =~= spec_relink_lones(lo_ok, boundary as int));
    }
    let cursor_marker = match lone_lm.pointer(g.cursor_marker) {
        Ok(v) => v,
        Err(e) => {
            proof {
                assert(spec_r == Err::<SpriteLoad, LoadError>(e));
            }
            return Err(e);
        },
    };
    let first_lone: Option<usize> = if boundary > 0 {
        Some(0)
    } else {
        None
    };
    let last_lone: Option<usize> = if boundary > 0 {
        Some(boundary - 1)
    } else {
        None
    };
    let first_fow: Option<usize> = if total > boundary {
        Some(boundary)
    } else {
        None
    };
    let last_fow: Option<usize> = if total > boundary {
        Some(total - 1)
    } else {
        None
    };
    let out = SpriteSystem {
        sprites: sprites_pool,
        images: images_pool,
        lone: lone_pool,
        first_lone,
        last_lone,
        first_fow,
        last_fow,
        hlines_begin,
        hlines_end,
        cursor_marker,
    };
    proof {
        assert(spec_r == Ok::<SpriteLoad, LoadError>(spec_sprite_state(&out)));
    }
    Ok((out, sprite_lm, lone_lm))
}

impl SpriteSystem {
    /// Tears down the arena-backed sprite state at session end: both
    /// arenas go back to empty without releasing their backing storage.
    pub fn delete_all(&mut self)
        ensures
            final(self).sprites@ == Seq::<Sprite>::empty(),
            final(self).images@ == Seq::<Image>::empty(),
            final(self).sprites.spec_capacity() == old(self).sprites.spec_capacity(),
            final(self).images.spec_capacity() == old(self).images.spec_capacity(),
            final(self).lone@ == old(self).lone@,
    {
        self.sprites.reset();
        self.images.reset();
    }
}

/// A sprite that never leaves the free list until the host initializes it.
pub fn blank_sprite() -> (r: Sprite)
    ensures
        r.prev is None && r.next is None,
{
    Sprite {
        prev: None,
        next: None,
        sprite_id: 0,
        player: 0,
        selection_index: 0,
        visibility_mask: 0,
        elevation: 0,
        flags: 0,
        selection_flash_timer: 0,
        index: 0,
        width: 0,
        height: 0,
        position: Point { x: 0, y: 0 },
        main_image: None,
        first_overlay: None,
        last_overlay: None,
        extra: SpriteExtension { spawn_order: 0 },
    }
}

/// Tops the free-sprite list up to `target` entries by pushing fresh
/// arena slots onto its head, stopping early when the arena is full: the
/// host treats an exhausted pool as a recoverable condition. Every added
/// slot is a new arena slot linked in front of the previous head; the
/// slots already in the pool are untouched except the old head, whose
/// back link now points at the first added slot.
pub fn refill_sprite_free_list(
    sprites: &mut RawVec<Sprite>,
    first_free: &mut Option<usize>,
    last_free: &mut Option<usize>,
    target: usize,
) -> (r: Result<(), SaveError>)
    ensures
        r is Err ==> spec_walk(
            old(sprites)@,
            *old(first_free),
            Seq::<usize>::empty(),
        ) is Err && *final(sprites) == *old(sprites) && *final(first_free) == *old(first_free)
            && *final(last_free) == *old(last_free),
        r is Ok ==> ({
            let have = spec_walk(old(sprites)@, *old(first_free), Seq::<usize>::empty())->Ok_0.len();
            let room = if old(sprites).spec_capacity() >= old(sprites)@.len() {
                old(sprites).spec_capacity() - old(sprites)@.len()
            } else {
                0int
            };
            let added = if have >= target {
                0int
            } else if target - have <= room {
                target - have
            } else {
                room
            };
            &&& spec_walk(old(sprites)@, *old(first_free), Seq::<usize>::empty()) is Ok
            &&& final(sprites)@.len() == old(sprites)@.len() + added
            &&& final(sprites).spec_capacity() == old(sprites).spec_capacity()
            &&& (forall|j: int|
                old(sprites)@.len() <= j < final(sprites)@.len() ==> (#[trigger] final(sprites)@[j].next)
                    == (if j == old(sprites)@.len() {
                    *old(first_free)
                } else {
                    Some((j - 1) as usize)
                }))
            &&& (forall|j: int|
                old(sprites)@.len() <= j < final(sprites)@.len() ==> (#[trigger] final(sprites)@[j].prev)
                    == (if j + 1 < final(sprites)@.len() {
                    Some((j + 1) as usize)
                } else {
                    None::<usize>
                }))
            &&& *final(first_free) == (if added == 0 {
                *old(first_free)
            } else {
                Some((final(sprites)@.len() - 1) as usize)
            })
            &&& (added > 0 && *old(first_free) is None ==> *final(last_free) == Some(
                old(sprites)@.len() as usize,
            ))
            &&& (*old(first_free) is Some ==> *final(last_free) == *old(last_free))
        }),
{
    let order = match collect_list(sprites, *first_free) {
        Ok(o) => o,
        Err(e) => {
            return Err(e);
        },
    };
    let have = order.len();
    if have >= target {
        return Ok(());
    }
    let ghost base = sprites@.len() as int;
    let ghost orig_first = *first_free;
    let cap = sprites.capacity();
    let need = target - have;
    let mut added: usize = 0;
    while added < need && sprites.len() < cap
        invariant
            added <= need,
            base == old(sprites)@.len(),
            orig_first == *old(first_free),
            spec_walk(old(sprites)@, *old(first_free), Seq::<usize>::empty()) is Ok,
            need == target - spec_walk(
                old(sprites)@,
                *old(first_free),
                Seq::<usize>::empty(),
            )->Ok_0.len(),
            need >= 1,
            sprites@.len() == base + added,
            sprites@.len() <= cap || added == 0,
            cap == sprites.spec_capacity(),
            sprites.spec_capacity() == old(sprites).spec_capacity(),
            forall|j: int|
                0 <= j < base && !(orig_first is Some && j == orig_first->Some_0) ==> sprites@[j]
                    == old(sprites)@[j],
            forall|j: int|
                base <= j < sprites@.len() ==> (#[trigger] sprites@[j].next) == (if j == base {
                    orig_first
                } else {
                    Some((j - 1) as usize)
                }),
            forall|j: int|
                base <= j < sprites@.len() ==> (#[trigger] sprites@[j].prev) == (if j + 1
                    < sprites@.len() {
                    Some((j + 1) as usize)
                } else {
                    None::<usize>
                }),
            *first_free == (if added == 0 {
                orig_first
            } else {
                Some((base + added - 1) as usize)
            }),
            added > 0 && orig_first is None ==> *last_free == Some(base as usize),
            orig_first is None && added == 0 ==> *last_free == *old(last_free),
            orig_first is Some ==> *last_free == *old(last_free),
            orig_first is Some ==> orig_first->Some_0 < base,
        decreases need - added,
    {
        let head = *first_free;
        let mut fresh = blank_sprite();
        fresh.next = head;
        let slot = sprites.len();
        let _ = sprites.push(fresh);
        match head {
            Some(h) => {
                proof {
                    if added > 0 {
                        assert(head == Some((base + added - 1) as usize));
                        assert(0 <= base + added - 1 < base + added);
                        assert(h as int == base + added - 1);
                    } else {
                        assert(h < base);
                    }
                    assert(h < sprites@.len());
                }
                let mut old_head = *sprites.get(h);
                old_head.prev = Some(slot);
                let ghost before_set = sprites@;
                sprites.set(h, old_head);
                proof {
                    assert forall|j: int|
                        base <= j < sprites@.len() implies (#[trigger] sprites@[j].prev) == (if j
                        + 1 < sprites@.len() {
                        Some((j + 1) as usize)
                    } else {
                        None::<usize>
                    }) by {
                        if j != h {
                            assert(sprites@[j] == before_set[j]);
                        }
                    }
                }
            },
            None => {
                *last_free = Some(slot);
            },
        }
        *first_free = Some(slot);
        added = added + 1;
    }
    Ok(())
}

/// Tops the free-image list up to `target` entries by pushing fresh
/// arena slots onto its head, stopping early when the arena is full: the
/// host treats an exhausted pool as a recoverable condition. Every added
/// slot is a new arena slot linked in front of the previous head; the
/// slots already in the pool are untouched except the old head, whose
/// back link now points at the first added slot.
pub fn refill_image_free_list(
    images: &mut RawVec<Image>,
    first_free: &mut Option<usize>,
    last_free: &mut Option<usize>,
    target: usize,
) -> (r: Result<(), SaveError>)
    ensures
        r is Err ==> spec_walk(
            old(images)@,
            *old(first_free),
            Seq::<usize>::empty(),
        ) is Err && *final(images) == *old(images) && *final(first_free) == *old(first_free)
            && *final(last_free) == *old(last_free),
        r is Ok ==> ({
            let have = spec_walk(old(images)@, *old(first_free), Seq::<usize>::empty())->Ok_0.len();
            let room = if old(images).spec_capacity() >= old(images)@.len() {
                old(images).spec_capacity() - old(images)@.len()
            } else {
                0int
            };
            let added = if have >= target {
                0int
            } else if target - have <= room {
                target - have
            } else {
                room
            };
            &&& spec_walk(old(images)@, *old(first_free), Seq::<usize>::empty()) is Ok
            &&& final(images)@.len() == old(images)@.len() + added
            &&& final(images).spec_capacity() == old(images).spec_capacity()
            &&& (forall|j: int|
                old(images)@.len() <= j < final(images)@.len() ==> (#[trigger] final(images)@[j].next)
                    == (if j == old(images)@.len() {
                    *old(first_free)
                } else {
                    Some((j - 1) as usize)
                }))
            &&& (forall|j: int|
                old(images)@.len() <= j < final(images)@.len() ==> (#[trigger] final(images)@[j].prev)
                    == (if j + 1 < final(images)@.len() {
                    Some((j + 1) as usize)
                } else {
                    None::<usize>
                }))
            &&& *final(first_free) == (if added == 0 {
                *old(first_free)
            } else {
                Some((final(images)@.len() - 1) as usize)
            })
            &&& (added > 0 && *old(first_free) is None ==> *final(last_free) == Some(
                old(images)@.len() as usize,
            ))
            &&& (*old(first_free) is Some ==> *final(last_free) == *old(last_free))
        }),
{
    let order = match collect_list(images, *first_free) {
        Ok(o) => o,
        Err(e) => {
            return Err(e);
        },
    };
    let have = order.len();
    if have >= target {
        return Ok(());
    }
    let ghost base = images@.len() as int;
    let ghost orig_first = *first_free;
    let cap = images.capacity();
    let need = target - have;
    let mut added: usize = 0;
    while added < need && images.len() < cap
        invariant
            added <= need,
            base == old(images)@.len(),
            orig_first == *old(first_free),
            spec_walk(old(images)@, *old(first_free), Seq::<usize>::empty()) is Ok,
            need == target - spec_walk(
                old(images)@,
                *old(first_free),
                Seq::<usize>::empty(),
            )->Ok_0.len(),
            need >= 1,
            images@.len() == base + added,
            images@.len() <= cap || added == 0,
            cap == images.spec_capacity(),
            images.spec_capacity() == old(images).spec_capacity(),
            forall|j: int|
                0 <= j < base && !(orig_first is Some && j == orig_first->Some_0) ==> images@[j]
                    == old(images)@[j],
            forall|j: int|
                base <= j < images@.len() ==> (#[trigger] images@[j].next) == (if j == base {
                    orig_first
                } else {
                    Some((j - 1) as usize)
                }),
            forall|j: int|
                base <= j < images@.len() ==> (#[trigger] images@[j].prev) == (if j + 1
                    < images@.len() {
                    Some((j + 1) as usize)
                } else {
                    None::<usize>
                }),
            *first_free == (if added == 0 {
                orig_first
            } else {
                Some((base + added - 1) as usize)
            }),
            added > 0 && orig_first is None ==> *last_free == Some(base as usize),
            orig_first is None && added == 0 ==> *last_free == *old(last_free),
            orig_first is Some ==> *last_free == *old(last_free),
            orig_first is Some ==> orig_first->Some_0 < base,
        decreases need - added,
    {
        let head = *first_free;
        let mut fresh = blank_image();
        fresh.next = head;
        let slot = images.len();
        let _ = images.push(fresh);
        match head {
            Some(h) => {
                proof {
                    if added > 0 {
                        assert(head == Some((base + added - 1) as usize));
                        assert(0 <= base + added - 1 < base + added);
                        assert(h as int == base + added - 1);
                    } else {
                        assert(h < base);
                    }
                    assert(h < images@.len());
                }
                let mut old_head = *images.get(h);
                old_head.prev = Some(slot);
                let ghost before_set = images@;
                images.set(h, old_head);
                proof {
                    assert forall|j: int|
                        base <= j < images@.len() implies (#[trigger] images@[j].prev) == (if j
                        + 1 < images@.len() {
                        Some((j + 1) as usize)
                    } else {
                        None::<usize>
                    }) by {
                        if j != h {
                            assert(images@[j] == before_set[j]);
                        }
                    }
                }
            },
            None => {
                *last_free = Some(slot);
            },
        }
        *first_free = Some(slot);
        added = added + 1;
    }
    Ok(())
}

} // verus!
