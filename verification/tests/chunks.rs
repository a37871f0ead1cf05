//! Whole-chunk save and load round trips, corruption rejection, and the
//! size ceiling, exercised through the real compressed envelope.

use arena_save::arena::RawVec;
use arena_save::bullets::{
    load_bullets, save_bullets, Bullet, BulletSystem, BULLET_SAVE_MAX_SIZE,
};
use arena_save::chunk::seal_chunk;
use arena_save::entity::{Entity, Point, Point32};
use arena_save::errors::{LoadError, SaveError};
use arena_save::mapping::{LoadMapping, SaveMapping};
use std::io::Read;
use arena_save::sprites::{
    deserialize_image, deserialize_lone_sprite, image_serializable, lone_sprite_serializable,
    DrawfuncParam, Image, Iscript, LoneSprite,
};
use arena_save::units::{
    load_units, save_units, BuildQueue, CollisionPoints, LoadedUnits, Rally, Repulse, Unit,
    UnitAiRef, UnitGlobals, UnitSpecific, UnitSpecific2, UnitSpells, UnitSystem,
};

fn blank_entity() -> Entity {
    Entity {
        prev: None,
        next: None,
        hitpoints: 0,
        sprite: None,
        move_target: Point { x: 0, y: 0 },
        move_target_unit: None,
        next_move_waypoint: Point { x: 0, y: 0 },
        unk_move_waypoint: Point { x: 0, y: 0 },
        flingy_flags: 0,
        facing_direction: 0,
        flingy_turn_speed: 0,
        movement_direction: 0,
        flingy_id: 0,
        unk_26: 0,
        flingy_movement_type: 0,
        position: Point { x: 0, y: 0 },
        exact_position: Point32 { x: 0, y: 0 },
        flingy_top_speed: 0,
        current_speed: 0,
        next_speed: 0,
        speed: 0,
        speed2: 0,
        acceleration: 0,
        new_direction: 0,
        target_direction: 0,
        player: 0,
        order: 0,
        order_state: 0,
        order_signal: 0,
        order_fow_unit: 0,
        unused52: 0,
        order_timer: 0,
        ground_cooldown: 0,
        air_cooldown: 0,
        spell_cooldown: 0,
        order_target_pos: Point { x: 0, y: 0 },
        target: None,
    }
}

fn blank_spells() -> UnitSpells {
    UnitSpells {
        death_timer: 0,
        defensive_matrix_dmg: 0,
        matrix_timer: 0,
        stim_timer: 0,
        ensnare_timer: 0,
        lockdown_timer: 0,
        irradiate_timer: 0,
        stasis_timer: 0,
        plague_timer: 0,
        is_under_storm: 0,
        irradiated_by: None,
        irradiate_player: 0,
        parasited_by_players: 0,
        master_spell_timer: 0,
        is_blind: 0,
        maelstrom_timer: 0,
        unk125: 0,
        acid_spore_count: 0,
        acid_spore_timer0: 0,
        acid_spore_timer1: 0,
        acid_spore_timer2: 0,
        acid_spore_timer3: 0,
        acid_spore_timer4: 0,
        acid_spore_timer5: 0,
        acid_spore_timer6: 0,
        acid_spore_timer7: 0,
        acid_spore_timer8: 0,
    }
}

fn blank_unit() -> Unit {
    Unit {
        entity: blank_entity(),
        shields: 0,
        unit_id: 0,
        unused66: 0,
        highlight_order_count: 0,
        order_wait: 0,
        unk86: 0,
        attack_notify_timer: 0,
        previous_unit_id: 0,
        minimap_draw_counter: 0,
        minimap_draw_color: 0,
        unused8c: 0,
        rank: 0,
        kills: 0,
        last_attacking_player: 0,
        secondary_order_wait: 0,
        ai_spell_flags: 0,
        order_flags: 0,
        buttons: 0,
        invisibility_effects: 0,
        movement_state: 0,
        energy: 0,
        current_build_slot: 0,
        minor_unique_index: 0,
        secondary_order: 0,
        building_overlay_state: 0,
        build_hp_gain: 0,
        build_shield_gain: 0,
        remaining_build_time: 0,
        previous_hp: 0,
        next_player_unit: None,
        prev_player_unit: None,
        subunit: None,
        previous_attacker: None,
        related: None,
        order_queue_begin: None,
        order_queue_end: None,
        build_queue: BuildQueue { slot0: 0, slot1: 0, slot2: 0, slot3: 0, slot4: 0 },
        loaded_units: LoadedUnits {
            unit0: 0,
            unit1: 0,
            unit2: 0,
            unit3: 0,
            unit4: 0,
            unit5: 0,
            unit6: 0,
            unit7: 0,
        },
        unit_specific: UnitSpecific::Plain { word_a: 0, word_b: 0, word_c: 0, word_d: 0 },
        unit_specific2: UnitSpecific2::Plain2 { word_a: 0, word_b: 0, word_c: 0 },
        flags: 0,
        carried_powerup_flags: 0,
        wireframe_seed: 0,
        secondary_order_state: 0,
        move_target_update_timer: 0,
        detection_status: 0,
        unke8: 0,
        unkea: 0,
        path_frame: 0,
        pathing_flags: 0,
        unk106: 0,
        unk107: 0,
        bullet_spread_seed: 0,
        air_strength: 0,
        ground_strength: 0,
        pos_search_left: 7,
        pos_search_right: 7,
        pos_search_top: 7,
        pos_search_bottom: 7,
        currently_building: None,
        next_invisible: None,
        prev_invisible: None,
        rally_pylon: Rally::RallyPoint { x: 0, y: 0, unit: None },
        path: None,
        collision_points: CollisionPoints { point0: 0, point1: 0, point2: 0, point3: 0 },
        spells: blank_spells(),
        ai: UnitAiRef::NoAi,
        repulse: Repulse {
            repulse_misc: 0,
            repulse_direction: 0,
            repulse_chunk_x: 0,
            repulse_chunk_y: 0,
        },
    }
}

fn blank_globals() -> UnitGlobals {
    UnitGlobals {
        first_active: None,
        last_active: None,
        first_hidden: None,
        last_hidden: None,
        first_dying: None,
        last_dying: None,
        first_revealer: None,
        last_revealer: None,
        first_free: None,
        last_free: None,
        first_invisible: None,
        player0: None,
        player1: None,
        player2: None,
        player3: None,
        player4: None,
        player5: None,
        player6: None,
        player7: None,
        player8: None,
        player9: None,
        player10: None,
        player11: None,
    }
}

fn blank_bullet() -> Bullet {
    Bullet {
        entity: blank_entity(),
        weapon_id: 0,
        death_timer: 0,
        flags: 0,
        bounces_remaining: 0,
        parent: None,
        previous_bounce_target: None,
        spread_seed: 0,
    }
}

fn linked_bullets(n: usize) -> BulletSystem {
    let mut pool: RawVec<Bullet> = RawVec::with_capacity(n);
    let mut k = 0usize;
    while k < n {
        let mut b = blank_bullet();
        b.weapon_id = (k % 250) as u8;
        b.death_timer = 3;
        b.parent = Some(k % 1700);
        b.entity.hitpoints = k as i32;
        b.entity.prev = if k == 0 { None } else { Some(k - 1) };
        b.entity.next = if k + 1 == n { None } else { Some(k + 1) };
        let _ = pool.push(b);
        k += 1;
    }
    BulletSystem {
        bullets: pool,
        first_active: if n == 0 { None } else { Some(0) },
        last_active: if n == 0 { None } else { Some(n - 1) },
    }
}

#[test]
fn bullet_round_trip() {
    let sys = linked_bullets(5);
    let sprites = SaveMapping::new();
    let bytes = save_bullets(&sys, &sprites).unwrap();
    let loaded = load_bullets(&bytes, &LoadMapping::new()).unwrap();
    assert_eq!(loaded.first_active, Some(0));
    assert_eq!(loaded.last_active, Some(4));
    assert_eq!(loaded.bullets.len(), 5);
    for k in 0..5usize {
        let b = loaded.bullets.get(k);
        assert_eq!(b.weapon_id, k as u8);
        assert_eq!(b.death_timer, 3);
        assert_eq!(b.parent, Some(k));
        assert_eq!(b.entity.hitpoints, k as i32);
        assert_eq!(b.entity.prev, if k == 0 { None } else { Some(k - 1) });
        assert_eq!(b.entity.next, if k == 4 { None } else { Some(k + 1) });
    }
    // the whole bullet is reproduced, not just the fields above
    assert_eq!(*loaded.bullets.get(2), *sys.bullets.get(2));
}

#[test]
fn empty_bullet_round_trip() {
    let sys = linked_bullets(0);
    let bytes = save_bullets(&sys, &SaveMapping::new()).unwrap();
    let loaded = load_bullets(&bytes, &LoadMapping::new()).unwrap();
    assert_eq!(loaded.bullets.len(), 0);
    assert_eq!(loaded.first_active, None);
    assert_eq!(loaded.last_active, None);
}

#[test]
fn wrong_magic_rejected() {
    let sys = linked_bullets(1);
    let mut bytes = save_bullets(&sys, &SaveMapping::new()).unwrap();
    // a chunk whose magic is 0x0000 must fail with the magic it carried
    bytes[0] = 0;
    bytes[1] = 0;
    assert_eq!(
        load_bullets(&bytes, &LoadMapping::new()).err(),
        Some(LoadError::WrongMagic(0))
    );
}

#[test]
fn unsupported_version_rejected() {
    let sys = linked_bullets(1);
    let mut bytes = save_bullets(&sys, &SaveMapping::new()).unwrap();
    bytes[2] = 9;
    assert_eq!(
        load_bullets(&bytes, &LoadMapping::new()).err(),
        Some(LoadError::Version(9))
    );
}

#[test]
fn oversized_declared_payload_rejected() {
    // declared payload length past the ceiling fails before any payload
    // byte is even present
    let mut bytes = Vec::new();
    bytes.extend_from_slice(&0xffedu16.to_le_bytes());
    bytes.extend_from_slice(&1u32.to_le_bytes());
    bytes.extend_from_slice(&(BULLET_SAVE_MAX_SIZE + 1).to_le_bytes());
    assert_eq!(
        load_bullets(&bytes, &LoadMapping::new()).err(),
        Some(LoadError::Corrupted(BULLET_SAVE_MAX_SIZE + 1))
    );
}

#[test]
fn invalid_id_reports_value() {
    // one record against a one-entry directory, holding id 2 = N+1
    let mut stream = Vec::new();
    let globals = arena_save::bullets::BulletGlobalsSer {
        first_bullet: 1,
        last_bullet: 1,
        bullet_count: 1,
    };
    arena_save::bullets::put_bullet_globals(&mut stream, &globals);
    let sprites = SaveMapping::new();
    let mapping = SaveMapping::new();
    let mut rec =
        arena_save::bullets::bullet_serializable(&blank_bullet(), &mapping, &sprites).unwrap();
    rec.entity.prev = 2;
    arena_save::bullets::put_bullet_ser(&mut stream, &rec);
    let bytes = seal_chunk(&stream, 0xffed, BULLET_SAVE_MAX_SIZE).unwrap();
    assert_eq!(
        load_bullets(&bytes, &LoadMapping::new()).err(),
        Some(LoadError::Corrupted(2))
    );
}

#[test]
fn decompressed_stream_ceiling_enforced() {
    // a payload that inflates past the ceiling is rejected after
    // decompression, whatever its declared length was
    let big = vec![0u8; (BULLET_SAVE_MAX_SIZE as usize) + 4096];
    let mut payload = Vec::new();
    flate2::read::DeflateEncoder::new(&big[..], flate2::Compression::default())
        .read_to_end(&mut payload)
        .unwrap();
    let mut bytes = Vec::new();
    bytes.extend_from_slice(&0xffedu16.to_le_bytes());
    bytes.extend_from_slice(&1u32.to_le_bytes());
    bytes.extend_from_slice(&(payload.len() as u32).to_le_bytes());
    bytes.extend_from_slice(&payload);
    assert_eq!(
        load_bullets(&bytes, &LoadMapping::new()).err(),
        Some(LoadError::SizeLimit)
    );
}

#[test]
fn save_ceiling_reports_exact_byte_count() {
    // enough bullets that the encoded stream passes the ceiling at one
    // exact record boundary, and no chunk is produced
    let n = 83100usize;
    let sys = linked_bullets(n);
    let r = save_bullets(&sys, &SaveMapping::new());
    // globals are 12 bytes, each record 101: the first breach is the
    // record that pushes the stream to 12 + 83056 * 101 bytes
    assert_eq!(r.err(), Some(SaveError::SizeLimit(12 + 83056 * 101)));
}

#[test]
fn dangling_sprite_reference_is_hard_error() {
    let mut sys = linked_bullets(1);
    let mut b = *sys.bullets.get(0);
    b.entity.sprite = Some(3);
    sys.bullets.set(0, b);
    // the empty sprite directory does not know slot 3: never coerced to null
    assert_eq!(
        save_bullets(&sys, &SaveMapping::new()).err(),
        Some(SaveError::InvalidPointer)
    );
}

fn unit_fixture() -> (UnitSystem, Vec<u32>, SaveMapping, SaveMapping) {
    let mut flags = vec![0u32; 256];
    flags[7] = 0x8; // unit kind 7 is a worker
    flags[9] = 0x800; // unit kind 9 is a powerup
    let mut pool: RawVec<Unit> = RawVec::with_capacity(1700);
    for _ in 0..1700usize {
        let _ = pool.push(blank_unit());
    }
    // worker
    let mut worker = blank_unit();
    worker.unit_id = 7;
    worker.unit_specific = UnitSpecific::Worker {
        unit_a: Some(11),
        word_b: 77,
        unit_c: Some(12),
        word_d: 78,
    };
    worker.unit_specific2 = UnitSpecific2::WorkerLinks {
        unit_a: Some(13),
        unit_b: None,
        unit_c: Some(14),
    };
    pool.set(0, worker);
    // hangar-bearing carrier
    let mut carrier = blank_unit();
    carrier.unit_id = 0x48;
    carrier.unit_specific = UnitSpecific::Hangar {
        unit_a: Some(21),
        unit_b: Some(22),
        word_c: 5,
        word_d: 6,
    };
    pool.set(1, carrier);
    // carried interceptor
    let mut interceptor = blank_unit();
    interceptor.unit_id = 0x49;
    interceptor.unit_specific = UnitSpecific::Carried {
        unit_a: Some(1),
        unit_b: None,
        unit_c: Some(31),
        word_d: 9,
    };
    pool.set(2, interceptor);
    // building with an addon reference
    let mut building = blank_unit();
    building.unit_id = 0x6a;
    building.flags = 0x2;
    building.unit_specific = UnitSpecific::Building {
        unit_a: Some(41),
        word_b: 1,
        word_c: 2,
        word_d: 3,
    };
    pool.set(3, building);
    // resource
    let mut mineral = blank_unit();
    mineral.unit_id = 0xb0;
    mineral.unit_specific2 = UnitSpecific2::Resource {
        word_a: 1500,
        unit_b: Some(51),
        word_c: 0,
    };
    pool.set(4, mineral);
    // powerup
    let mut powerup = blank_unit();
    powerup.unit_id = 9;
    powerup.unit_specific2 = UnitSpecific2::Powerup {
        word_a: 2,
        unit_b: Some(61),
        word_c: 3,
    };
    pool.set(5, powerup);
    // nuclear silo
    let mut silo = blank_unit();
    silo.unit_id = 0x6c;
    silo.flags = 0x2;
    silo.unit_specific = UnitSpecific::Building {
        unit_a: None,
        word_b: 0,
        word_c: 0,
        word_d: 0,
    };
    silo.unit_specific2 = UnitSpecific2::Silo { unit_a: Some(71), word_b: 1, word_c: 0 };
    pool.set(6, silo);
    // ghost with a nuclear-strike marker (standalone sprite 0)
    let mut ghost = blank_unit();
    ghost.unit_id = 0x01;
    ghost.unit_specific2 = UnitSpecific2::GhostMarker { lone_a: Some(0), word_b: 0, word_c: 0 };
    ghost.ai = UnitAiRef::Military(17);
    pool.set(7, ghost);
    // pylon with an aura sprite and a power-grid rally pair
    let mut pylon = blank_unit();
    pylon.unit_id = 0x9c;
    pylon.flags = 0x2;
    pylon.unit_specific = UnitSpecific::Building {
        unit_a: None,
        word_b: 0,
        word_c: 0,
        word_d: 0,
    };
    pylon.unit_specific2 = UnitSpecific2::PylonAura { sprite_a: Some(0), word_b: 0, word_c: 0 };
    pylon.rally_pylon = Rally::RallyPylon { unit_a: Some(81), unit_b: None };
    pool.set(8, pylon);
    // an active list 0 -> 1 -> 2
    let mut u0 = *pool.get(0);
    u0.entity.next = Some(1);
    pool.set(0, u0);
    let mut u1 = *pool.get(1);
    u1.entity.prev = Some(0);
    u1.entity.next = Some(2);
    pool.set(1, u1);
    let mut u2 = *pool.get(2);
    u2.entity.prev = Some(1);
    pool.set(2, u2);
    let mut globals = blank_globals();
    globals.first_active = Some(0);
    globals.last_active = Some(2);
    globals.player0 = Some(0);
    let sprite_dir = SaveMapping::from_order(&vec![0usize], 1);
    let lone_dir = SaveMapping::from_order(&vec![0usize], 1);
    (UnitSystem { units: pool, globals }, flags, sprite_dir, lone_dir)
}

#[test]
fn unit_round_trip_all_overlay_classes() {
    let (sys, flags, sprite_dir, lone_dir) = unit_fixture();
    let bytes = save_units(&sys, &sprite_dir, &lone_dir).unwrap();
    let (loaded, reinsert) =
        load_units(&bytes, &LoadMapping::dense(1), &LoadMapping::dense(1), &flags).unwrap();
    assert_eq!(loaded.globals, sys.globals);
    // the three active units were scrubbed and are re-inserted in order
    assert_eq!(reinsert, vec![0, 1, 2]);
    for k in 0..3usize {
        let u = loaded.units.get(k);
        assert_eq!(u.pos_search_left, u32::MAX);
        assert_eq!(u.pos_search_right, u32::MAX);
        assert_eq!(u.pos_search_top, u32::MAX);
        assert_eq!(u.pos_search_bottom, u32::MAX);
    }
    // every overlay reference came back correctly typed
    assert_eq!(
        loaded.units.get(0).unit_specific,
        UnitSpecific::Worker { unit_a: Some(11), word_b: 77, unit_c: Some(12), word_d: 78 }
    );
    assert_eq!(
        loaded.units.get(0).unit_specific2,
        UnitSpecific2::WorkerLinks { unit_a: Some(13), unit_b: None, unit_c: Some(14) }
    );
    assert_eq!(
        loaded.units.get(1).unit_specific,
        UnitSpecific::Hangar { unit_a: Some(21), unit_b: Some(22), word_c: 5, word_d: 6 }
    );
    assert_eq!(
        loaded.units.get(2).unit_specific,
        UnitSpecific::Carried { unit_a: Some(1), unit_b: None, unit_c: Some(31), word_d: 9 }
    );
    assert_eq!(
        loaded.units.get(3).unit_specific,
        UnitSpecific::Building { unit_a: Some(41), word_b: 1, word_c: 2, word_d: 3 }
    );
    assert_eq!(
        loaded.units.get(4).unit_specific2,
        UnitSpecific2::Resource { word_a: 1500, unit_b: Some(51), word_c: 0 }
    );
    assert_eq!(
        loaded.units.get(5).unit_specific2,
        UnitSpecific2::Powerup { word_a: 2, unit_b: Some(61), word_c: 3 }
    );
    assert_eq!(
        loaded.units.get(6).unit_specific2,
        UnitSpecific2::Silo { unit_a: Some(71), word_b: 1, word_c: 0 }
    );
    assert_eq!(
        loaded.units.get(7).unit_specific2,
        UnitSpecific2::GhostMarker { lone_a: Some(0), word_b: 0, word_c: 0 }
    );
    assert_eq!(loaded.units.get(7).ai, UnitAiRef::Military(17));
    assert_eq!(
        loaded.units.get(8).unit_specific2,
        UnitSpecific2::PylonAura { sprite_a: Some(0), word_b: 0, word_c: 0 }
    );
    assert_eq!(
        loaded.units.get(8).rally_pylon,
        Rally::RallyPylon { unit_a: Some(81), unit_b: None }
    );
    // an inactive unit comes back byte for byte
    assert_eq!(*loaded.units.get(3), *sys.units.get(3));
    assert_eq!(*loaded.units.get(1000), *sys.units.get(1000));
}

#[test]
fn image_record_round_trip_per_drawfunc() {
    let base = Image {
        prev: Some(4),
        next: Some(5),
        image_id: 0x100,
        drawfunc: 0,
        direction: 3,
        flags: 0x40,
        x_offset: -2,
        y_offset: 7,
        iscript: Iscript { header: 1, pos: 2, return_pos: 3, animation_id: 4, wait: 5 },
        frameset: 8,
        frame: 9,
        map_position: arena_save::entity::Point { x: 10, y: -11 },
        screen_x: 12,
        screen_y: -13,
        grp_bound_0: 1,
        grp_bound_1: 2,
        grp_bound_2: 3,
        grp_bound_3: 4,
        grp: Some(33),
        drawfunc_param: DrawfuncParam::Raw(0xdead),
        parent: Some(6),
    };
    let image_count = 100u32;
    let ser = image_serializable(&base, 17, image_count).unwrap();
    assert_eq!(ser.slot, 17);
    assert_eq!(ser.grp, 34);
    let back = deserialize_image(&ser, image_count).unwrap();
    // links and parent are rebuilt by the list rebuild, everything else
    // comes back exactly
    assert_eq!(back.grp, Some(33));
    assert_eq!(back.drawfunc_param, DrawfuncParam::Raw(0xdead));
    assert_eq!(back.iscript, base.iscript);
    assert_eq!(back.x_offset, -2);
    assert_eq!(back.prev, None);
    assert_eq!(back.parent, None);

    let mut palette = base;
    palette.drawfunc = 9;
    palette.drawfunc_param = DrawfuncParam::Palette(Some(6));
    let ser = image_serializable(&palette, 0, image_count).unwrap();
    assert_eq!(ser.drawfunc_param, 7);
    assert_eq!(
        deserialize_image(&ser, image_count).unwrap().drawfunc_param,
        DrawfuncParam::Palette(Some(6))
    );

    let mut selection = base;
    selection.drawfunc = 11;
    selection.drawfunc_param = DrawfuncParam::UnitRef(Some(40));
    let ser = image_serializable(&selection, 0, image_count).unwrap();
    assert_eq!(ser.drawfunc_param, 41);
    assert_eq!(
        deserialize_image(&ser, image_count).unwrap().drawfunc_param,
        DrawfuncParam::UnitRef(Some(40))
    );

    // a palette reference outside the host table is a hard error
    let mut bad = base;
    bad.drawfunc = 9;
    bad.drawfunc_param = DrawfuncParam::Palette(Some(7));
    assert_eq!(
        image_serializable(&bad, 0, image_count).err(),
        Some(SaveError::InvalidRemapPalette)
    );
    // so is a graphics reference outside the table
    let mut bad2 = base;
    bad2.grp = Some(100);
    assert_eq!(
        image_serializable(&bad2, 0, image_count).err(),
        Some(SaveError::InvalidGrpPointer)
    );
}

#[test]
fn lone_sprite_record_round_trip() {
    let l = LoneSprite { prev: Some(9), next: Some(8), value: 1234, sprite: Some(0) };
    let dir = SaveMapping::from_order(&vec![0usize], 1);
    let ser = lone_sprite_serializable(&l, &dir).unwrap();
    assert_eq!(ser.sprite, 1);
    assert_eq!(ser.value, 1234);
    let back = deserialize_lone_sprite(&ser, &LoadMapping::dense(1)).unwrap();
    assert_eq!(back.sprite, Some(0));
    assert_eq!(back.value, 1234);
    assert_eq!(back.prev, None);
    assert_eq!(back.next, None);
}

#[test]
fn each_chunk_kind_has_its_own_magic() {
    // a chunk of one kind handed to another kind's loader must be
    // rejected by the magic check alone
    assert_ne!(
        arena_save::bullets::BULLET_SAVE_MAGIC,
        arena_save::units::UNIT_SAVE_MAGIC
    );
    assert_ne!(
        arena_save::bullets::BULLET_SAVE_MAGIC,
        arena_save::sprites::SPRITE_SAVE_MAGIC
    );
    assert_ne!(
        arena_save::units::UNIT_SAVE_MAGIC,
        arena_save::sprites::SPRITE_SAVE_MAGIC
    );
}
