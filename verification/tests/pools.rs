//! Pools, directories, list relinking and configuration tables,
//! exercised on concrete values.

use arena_save::arena::RawVec;
use arena_save::bullets::{Bullet, BulletSystem};
use arena_save::dat::{DatTable, UnitsDat};
use arena_save::entity::{Entity, Point, Point32};
use arena_save::errors::SaveError;
use arena_save::linked::build_save_directory;
use arena_save::mapping::{LoadMapping, SaveMapping};
use arena_save::sprites::{relink_lone_lists, LoneSprite};
use arena_save::units::{has_hangar, is_powerup, is_resource, is_worker};

fn blank_entity() -> Entity {
    Entity {
        prev: None,
        next: None,
        hitpoints: 0,
        sprite: None,
        move_target: Point { x: 0, y: 0 },
        move_target_unit: None,
        next_move_waypoint: Point { x: 0, y: 0 },
        unk_move_waypoint: Point { x: 0, y: 0 },
        flingy_flags: 0,
        facing_direction: 0,
        flingy_turn_speed: 0,
        movement_direction: 0,
        flingy_id: 0,
        unk_26: 0,
        flingy_movement_type: 0,
        position: Point { x: 0, y: 0 },
        exact_position: Point32 { x: 0, y: 0 },
        flingy_top_speed: 0,
        current_speed: 0,
        next_speed: 0,
        speed: 0,
        speed2: 0,
        acceleration: 0,
        new_direction: 0,
        target_direction: 0,
        player: 0,
        order: 0,
        order_state: 0,
        order_signal: 0,
        order_fow_unit: 0,
        unused52: 0,
        order_timer: 0,
        ground_cooldown: 0,
        air_cooldown: 0,
        spell_cooldown: 0,
        order_target_pos: Point { x: 0, y: 0 },
        target: None,
    }
}

fn blank_bullet() -> Bullet {
    Bullet {
        entity: blank_entity(),
        weapon_id: 0,
        death_timer: 0,
        flags: 0,
        bounces_remaining: 0,
        parent: None,
        previous_bounce_target: None,
        spread_seed: 0,
    }
}

fn linked_bullets(n: usize) -> BulletSystem {
    let mut pool: RawVec<Bullet> = RawVec::with_capacity(n);
    let mut k = 0usize;
    while k < n {
        let mut b = blank_bullet();
        b.weapon_id = k as u8;
        b.entity.prev = if k == 0 { None } else { Some(k - 1) };
        b.entity.next = if k + 1 == n { None } else { Some(k + 1) };
        let _ = pool.push(b);
        k += 1;
    }
    BulletSystem {
        bullets: pool,
        first_active: if n == 0 { None } else { Some(0) },
        last_active: if n == 0 { None } else { Some(n - 1) },
    }
}

#[test]
fn arena_capacity_boundary() {
    let mut pool: RawVec<u64> = RawVec::with_capacity(4);
    assert_eq!(pool.push(10), Some(0));
    assert_eq!(pool.push(11), Some(1));
    assert_eq!(pool.push(12), Some(2));
    assert_eq!(pool.push(13), Some(3));
    // the (capacity+1)-th push is the one and only failure
    assert_eq!(pool.push(14), None);
    // and prior entries are untouched
    assert_eq!(*pool.get(0), 10);
    assert_eq!(*pool.get(1), 11);
    assert_eq!(*pool.get(2), 12);
    assert_eq!(*pool.get(3), 13);
    // reset followed by capacity pushes succeeds again
    pool.reset();
    assert_eq!(pool.len(), 0);
    assert_eq!(pool.push(20), Some(0));
    assert_eq!(pool.push(21), Some(1));
    assert_eq!(pool.push(22), Some(2));
    assert_eq!(pool.push(23), Some(3));
    assert_eq!(pool.push(24), None);
}

#[test]
fn directory_id_density() {
    let sys = linked_bullets(3);
    let (order, mapping) = build_save_directory(&sys.bullets, sys.first_active).unwrap();
    assert_eq!(order, vec![0, 1, 2]);
    assert_eq!(mapping.len(), 3);
    // ids are exactly 1..=3, in traversal order
    assert_eq!(mapping.id(Some(0)), Ok(1));
    assert_eq!(mapping.id(Some(1)), Ok(2));
    assert_eq!(mapping.id(Some(2)), Ok(3));
    // null maps to 0 and only to 0
    assert_eq!(mapping.id(None), Ok(0));
    // a reference outside the pool is a hard error, not a null
    assert_eq!(mapping.id(Some(9)), Err(SaveError::InvalidPointer));
}

#[test]
fn directory_rejects_cycles() {
    let mut sys = linked_bullets(2);
    let mut b = *sys.bullets.get(1);
    b.entity.next = Some(0);
    sys.bullets.set(1, b);
    assert_eq!(
        build_save_directory(&sys.bullets, sys.first_active).err(),
        Some(SaveError::InvalidPointer)
    );
}

#[test]
fn load_mapping_bounds() {
    let lm = LoadMapping::dense(3);
    assert_eq!(lm.pointer(0), Ok(None));
    assert_eq!(lm.pointer(1), Ok(Some(0)));
    assert_eq!(lm.pointer(3), Ok(Some(2)));
    assert_eq!(
        lm.pointer(4),
        Err(arena_save::errors::LoadError::Corrupted(4))
    );
}

fn blank_lone() -> LoneSprite {
    LoneSprite { prev: None, next: None, value: 0, sprite: None }
}

#[test]
fn lone_list_boundaries() {
    // 3 lone sprites followed by 2 fog sprites in one batch
    let mut pool: RawVec<LoneSprite> = RawVec::with_capacity(5);
    for v in 0..5u32 {
        let mut l = blank_lone();
        l.value = v;
        let _ = pool.push(l);
    }
    relink_lone_lists(&mut pool, 3);
    // prev is null exactly at index 0 and at the boundary index 3
    assert_eq!(pool.get(0).prev, None);
    assert_eq!(pool.get(1).prev, Some(0));
    assert_eq!(pool.get(2).prev, Some(1));
    assert_eq!(pool.get(3).prev, None);
    assert_eq!(pool.get(4).prev, Some(3));
    // next is null exactly at index 2 and at index 4: no link crosses 2->3
    assert_eq!(pool.get(0).next, Some(1));
    assert_eq!(pool.get(1).next, Some(2));
    assert_eq!(pool.get(2).next, None);
    assert_eq!(pool.get(3).next, Some(4));
    assert_eq!(pool.get(4).next, None);
    // payloads untouched
    for v in 0..5u32 {
        assert_eq!(pool.get(v as usize).value, v);
    }
}

#[test]
fn dat_cells_by_width() {
    let bytes1 = DatTable { entry_size: 1, entries: 3, data: vec![5, 6, 7] };
    let bytes2 = DatTable { entry_size: 2, entries: 2, data: vec![0x34, 0x12, 0xcd, 0xab] };
    let bytes4 = DatTable {
        entry_size: 4,
        entries: 1,
        data: vec![0x78, 0x56, 0x34, 0x12],
    };
    assert_eq!(arena_save::dat::dat_get(&bytes1, 2), 7);
    assert_eq!(arena_save::dat::dat_get(&bytes2, 1), 0xabcd);
    assert_eq!(arena_save::dat::dat_get(&bytes4, 0), 0x12345678);
}

#[test]
fn dat_unit_stats() {
    // 47 columns of one entry each; column index doubles as its cell value
    let mut tables = Vec::new();
    for i in 0..47u8 {
        tables.push(DatTable { entry_size: 1, entries: 1, data: vec![i] });
    }
    let d = UnitsDat { tables };
    assert_eq!(d.amount(), 1);
    assert_eq!(d.hitpoints(0), 8);
    assert_eq!(d.shields(0), 7 * 256);
    assert_eq!(d.has_shields(0), 6);
    assert_eq!(d.ground_weapon(0), 17);
    assert_eq!(d.air_weapon(0), 19);
    assert_eq!(d.flags(0), 22);
    assert_eq!(d.group_flags(0), 44);
    assert_eq!(d.armor(0), 27);
    assert_eq!(d.armor_upgrade(0), 25);
    assert_eq!(d.mineral_cost(0), 40);
    assert_eq!(d.gas_cost(0), 41);
    assert_eq!(d.build_time(0), 42);
    assert_eq!(d.supply_cost(0), 46);
}

#[test]
fn capability_flags() {
    assert!(has_hangar(0x48) && has_hangar(0x52) && has_hangar(0x53) && has_hangar(0x51));
    assert!(!has_hangar(0x49));
    assert!(is_resource(0xb0) && is_resource(0xb1) && is_resource(0xb2) && is_resource(0xbc));
    assert!(!is_resource(0x48));
    let mut flags = vec![0u32; 16];
    flags[7] = 0x8;
    flags[9] = 0x800;
    assert!(is_worker(7, &flags));
    assert!(!is_worker(8, &flags));
    assert!(is_powerup(9, &flags));
    // a unit id past the table has no capabilities
    assert!(!is_worker(400, &flags));
}

#[test]
fn session_teardown() {
    let mut sys = linked_bullets(3);
    sys.delete_all();
    assert_eq!(sys.bullets.len(), 0);
    assert_eq!(sys.first_active, None);
    assert_eq!(sys.last_active, None);
    // the capacity survives the reset
    assert_eq!(sys.bullets.capacity(), 3);
    assert_eq!(sys.bullets.push(blank_bullet()), Some(0));
}
