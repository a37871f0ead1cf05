//! Sprite chunk round trips: arena-order sprites with inline image lists,
//! selection-overlay exclusion, the standalone-sprite batch with its list
//! boundary, scanline buckets and the cursor marker.

use arena_save::arena::RawVec;
use arena_save::entity::Point;
use arena_save::mapping::LoadMapping;
use arena_save::sprites::{
    load_sprites, save_sprites, sprite_from_id_current_mapping, sprite_to_id_current_mapping,
    refill_sprite_free_list, sprite_vision_sync, DrawfuncParam, Image, Iscript, LoneSprite,
    Sprite, SpriteExtension, SpriteSystem,
};

fn image(id: u16) -> Image {
    Image {
        prev: None,
        next: None,
        image_id: id,
        drawfunc: 0,
        direction: 1,
        flags: 2,
        x_offset: -1,
        y_offset: 1,
        iscript: Iscript { header: 10, pos: 11, return_pos: 12, animation_id: 13, wait: 14 },
        frameset: 3,
        frame: 4,
        map_position: Point { x: 5, y: 6 },
        screen_x: 7,
        screen_y: 8,
        grp_bound_0: 0,
        grp_bound_1: 0,
        grp_bound_2: 0,
        grp_bound_3: 0,
        grp: Some(2),
        drawfunc_param: DrawfuncParam::Raw(9),
        parent: Some(0),
    }
}

fn sprite() -> Sprite {
    Sprite {
        prev: None,
        next: None,
        sprite_id: 0x77,
        player: 1,
        selection_index: 2,
        visibility_mask: 3,
        elevation: 4,
        flags: 0xff,
        selection_flash_timer: 5,
        index: 6,
        width: 7,
        height: 8,
        position: Point { x: 100, y: 200 },
        main_image: None,
        first_overlay: None,
        last_overlay: None,
        extra: SpriteExtension { spawn_order: 0x1122334455667788 },
    }
}

fn fixture() -> SpriteSystem {
    let mut images: RawVec<Image> = RawVec::with_capacity(arena_save::sprites::IMAGE_LIMIT);
    // sprite 0 owns images 0 -> 1 -> 2, where image 1 is a selection
    // overlay that must not survive a save
    let mut img0 = image(0x10);
    img0.next = Some(1);
    let mut img1 = image(0x231); // selection marker range
    img1.prev = Some(0);
    img1.next = Some(2);
    let mut img2 = image(0x11);
    img2.prev = Some(1);
    let _ = images.push(img0);
    let _ = images.push(img1);
    let _ = images.push(img2);
    let mut sprites: RawVec<Sprite> = RawVec::with_capacity(arena_save::sprites::SPRITE_LIMIT);
    let mut s0 = sprite();
    s0.next = Some(1);
    s0.first_overlay = Some(0);
    s0.last_overlay = Some(2);
    s0.main_image = Some(2);
    let mut s1 = sprite();
    s1.prev = Some(0);
    s1.sprite_id = 0x78;
    let _ = sprites.push(s0);
    let _ = sprites.push(s1);
    // three lone sprites followed by two fog sprites
    let mut lone: RawVec<LoneSprite> = RawVec::with_capacity(8);
    for k in 0..5usize {
        let in_lone = k < 3;
        let first = if in_lone { 0 } else { 3 };
        let last = if in_lone { 2 } else { 4 };
        let _ = lone.push(LoneSprite {
            prev: if k == first { None } else { Some(k - 1) },
            next: if k == last { None } else { Some(k + 1) },
            value: 100 + k as u32,
            sprite: Some(k % 2),
        });
    }
    SpriteSystem {
        sprites,
        images,
        lone,
        first_lone: Some(0),
        last_lone: Some(2),
        first_fow: Some(3),
        last_fow: Some(4),
        hlines_begin: vec![Some(0), None],
        hlines_end: vec![Some(1), None],
        cursor_marker: Some(2),
    }
}

#[test]
fn sprite_round_trip() {
    let sys = fixture();
    let bytes = save_sprites(&sys, 50).unwrap();
    let (loaded, sprite_lm, lone_lm) = load_sprites(&bytes, 50).unwrap();
    assert_eq!(loaded.sprites.len(), 2);
    let s0 = loaded.sprites.get(0);
    // selection flags are cleared, the selection overlay is gone, and the
    // surviving images returned to their exact arena slots
    assert_eq!(s0.flags, 0xf6);
    assert_eq!(s0.first_overlay, Some(0));
    assert_eq!(s0.last_overlay, Some(2));
    assert_eq!(s0.main_image, Some(2));
    assert_eq!(s0.next, Some(1));
    assert_eq!(s0.extra.spawn_order, 0x1122334455667788);
    let img0 = loaded.images.get(0);
    assert_eq!(img0.image_id, 0x10);
    assert_eq!(img0.prev, None);
    assert_eq!(img0.next, Some(2));
    assert_eq!(img0.grp, Some(2));
    assert_eq!(img0.parent, Some(0));
    let img2 = loaded.images.get(2);
    assert_eq!(img2.prev, Some(0));
    assert_eq!(img2.next, None);
    // the standalone batch keeps its two logical lists apart
    assert_eq!(loaded.lone.len(), 5);
    assert_eq!(loaded.first_lone, Some(0));
    assert_eq!(loaded.last_lone, Some(2));
    assert_eq!(loaded.first_fow, Some(3));
    assert_eq!(loaded.last_fow, Some(4));
    assert_eq!(loaded.lone.get(2).next, None);
    assert_eq!(loaded.lone.get(3).prev, None);
    assert_eq!(loaded.lone.get(3).next, Some(4));
    for k in 0..5usize {
        assert_eq!(loaded.lone.get(k).value, 100 + k as u32);
        assert_eq!(loaded.lone.get(k).sprite, Some(k % 2));
    }
    // bucket heads and cursor marker resolved back
    assert_eq!(loaded.hlines_begin, vec![Some(0), None]);
    assert_eq!(loaded.hlines_end, vec![Some(1), None]);
    assert_eq!(loaded.cursor_marker, Some(2));
    // the load directories hand the other chunks the same resolution
    assert_eq!(sprite_from_id_current_mapping(&sprite_lm, 2).unwrap(), Some(1));
    assert_eq!(lone_lm.pointer(5).unwrap(), Some(4));
}

#[test]
fn sprite_chunk_rejects_wrong_magic() {
    let sys = fixture();
    let mut bytes = save_sprites(&sys, 50).unwrap();
    bytes[0] = 0;
    bytes[1] = 0;
    assert_eq!(
        load_sprites(&bytes, 50).err(),
        Some(arena_save::errors::LoadError::WrongMagic(0))
    );
}

#[test]
fn sprite_ids_through_current_mapping() {
    let order = vec![0usize, 1];
    let dir = arena_save::mapping::SaveMapping::from_order(&order, 2);
    assert_eq!(sprite_to_id_current_mapping(&dir, Some(1)).unwrap(), 2);
    assert_eq!(sprite_to_id_current_mapping(&dir, None).unwrap(), 0);
    let lm = LoadMapping::dense(2);
    assert_eq!(sprite_from_id_current_mapping(&lm, 2).unwrap(), Some(1));
}

#[test]
fn vision_sync_toggles_one_row() {
    let mut lines = vec![0u8; 8];
    sprite_vision_sync(&mut lines, true, 96, 7, 0x21);
    assert_eq!(lines[3], 0x21);
    // negative positions clamp to row zero
    sprite_vision_sync(&mut lines, true, -5, 7, 0x40);
    assert_eq!(lines[0], 0x40);
    // uninvolved sprite kinds touch nothing
    sprite_vision_sync(&mut lines, false, 32, 7, 0xff);
    assert_eq!(lines, vec![0x40, 0, 0, 0x21, 0, 0, 0, 0]);
}

#[test]
fn free_list_refill() {
    let mut sprites: RawVec<Sprite> = RawVec::with_capacity(4);
    let mut first: Option<usize> = None;
    let mut last: Option<usize> = None;
    refill_sprite_free_list(&mut sprites, &mut first, &mut last, 3).unwrap();
    // three fresh slots, linked newest-first in front of the old head
    assert_eq!(sprites.len(), 3);
    assert_eq!(first, Some(2));
    assert_eq!(last, Some(0));
    assert_eq!(sprites.get(2).next, Some(1));
    assert_eq!(sprites.get(1).next, Some(0));
    assert_eq!(sprites.get(0).next, None);
    assert_eq!(sprites.get(0).prev, Some(1));
    assert_eq!(sprites.get(2).prev, None);
    // a list already at its target is left alone
    refill_sprite_free_list(&mut sprites, &mut first, &mut last, 3).unwrap();
    assert_eq!(sprites.len(), 3);
    assert_eq!(first, Some(2));
    // the arena capacity caps the top-up: exhaustion is not an error
    refill_sprite_free_list(&mut sprites, &mut first, &mut last, 10).unwrap();
    assert_eq!(sprites.len(), 4);
    assert_eq!(first, Some(3));
    assert_eq!(sprites.get(3).next, Some(2));
    assert_eq!(sprites.get(2).prev, Some(3));
}

#[test]
fn image_free_list_refill() {
    let mut images: RawVec<Image> = RawVec::with_capacity(4);
    let mut first: Option<usize> = None;
    let mut last: Option<usize> = None;
    arena_save::sprites::refill_image_free_list(&mut images, &mut first, &mut last, 3).unwrap();
    // three fresh slots, linked newest-first in front of the old head
    assert_eq!(images.len(), 3);
    assert_eq!(first, Some(2));
    assert_eq!(last, Some(0));
    assert_eq!(images.get(2).next, Some(1));
    assert_eq!(images.get(1).next, Some(0));
    assert_eq!(images.get(0).next, None);
    assert_eq!(images.get(0).prev, Some(1));
    assert_eq!(images.get(2).prev, None);
    // a list already at its target is left alone
    arena_save::sprites::refill_image_free_list(&mut images, &mut first, &mut last, 3).unwrap();
    assert_eq!(images.len(), 3);
    assert_eq!(first, Some(2));
    // the arena capacity caps the top-up: exhaustion is not an error
    arena_save::sprites::refill_image_free_list(&mut images, &mut first, &mut last, 10).unwrap();
    assert_eq!(images.len(), 4);
    assert_eq!(first, Some(3));
    assert_eq!(images.get(3).next, Some(2));
    assert_eq!(images.get(2).prev, Some(3));
}
