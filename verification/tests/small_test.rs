use rust_webgpu_game::battle::{
    alive_counts, battle_sfx_queue, refresh_overlay, shell_can_hit, TankStatus, MAX_HP,
};
use rust_webgpu_game::hud::{glyph_cells, hud_counters, number_digits};
use rust_webgpu_game::mesh::{
    finish_meshes, keeps_primitive, quad_indices, sequential_indices, sphere_indices,
};
use rust_webgpu_game::pending::{queue, request_add, take, take_add, Pending};
use rust_webgpu_game::pool::{upload_runs, CappedPool, SlotRing};
use rust_webgpu_game::rng::{next_state, unit_bits};
use rust_webgpu_game::sfx::SfxQueue;
use rust_webgpu_game::text::{asset_note, battle_overlay, catalog_source, decimal_string, level_label};
use rust_webgpu_game::types::{Sfx, Team};

#[test]
fn xorshift_step() {
    assert_eq!(next_state(1), 270369);
    let mut x = 0x1234_5678u32;
    let mut y = x;
    y ^= y << 13;
    y ^= y >> 17;
    y ^= y << 5;
    x = next_state(x);
    assert_eq!(x, y);
    assert_eq!(next_state(0), 0);
    assert_eq!(unit_bits(0xffff_ffff), 0xff_ffff);
    assert_eq!(unit_bits(0x100), 1);
}

#[test]
fn xorshift_never_reaches_zero() {
    let mut x = 0xC0FF_EE11u32;
    for _ in 0..100_000 {
        x = next_state(x);
        assert_ne!(x, 0);
    }
}

#[test]
fn sfx_queue_caps_and_drain() {
    let mut q = SfxQueue::new(2, 3);
    q.push(Sfx::Cannon);
    q.push(Sfx::Cannon);
    q.push(Sfx::Cannon);
    assert_eq!(q.count(Sfx::Cannon), 2);
    q.push(Sfx::Spawn);
    q.push(Sfx::Explosion);
    assert_eq!(q.items, vec![Sfx::Cannon, Sfx::Cannon, Sfx::Spawn]);
    assert_eq!(q.drain(), vec![Sfx::Cannon, Sfx::Cannon, Sfx::Spawn]);
    assert!(q.items.is_empty());
    let b = battle_sfx_queue();
    assert_eq!((b.max_same, b.max_len), (2, 10));
}

#[test]
fn pending_file_is_taken_once() {
    let mut p = Pending::new();
    assert_eq!(take(&mut p), None);
    queue(&mut p, vec![1, 2]);
    queue(&mut p, vec![3]);
    assert_eq!(take(&mut p), Some(vec![3]));
    assert_eq!(take(&mut p), None);
}

#[test]
fn pending_tank_requests_add_up() {
    let mut p = Pending::new();
    assert_eq!(take_add(&mut p), 0);
    request_add(&mut p, 10);
    request_add(&mut p, 10);
    assert_eq!(take_add(&mut p), 20);
    assert_eq!(take_add(&mut p), 0);
    request_add(&mut p, u32::MAX);
    request_add(&mut p, 2);
    assert_eq!(take_add(&mut p), 1);
}

#[test]
fn digits_of_counters() {
    assert_eq!(number_digits(123456, 6), vec![6, 5, 4, 3, 2, 1]);
    assert_eq!(number_digits(42, 6), vec![2, 4, 0, 0, 0, 0]);
    assert_eq!(number_digits(1234567, 6), vec![7, 6, 5, 4, 3, 2]);
    assert_eq!(number_digits(7, 0), Vec::<u8>::new());
    let h = hud_counters(1234, 12, 5, 11, false, 60);
    assert_eq!(h.score_digits, vec![4, 3, 2, 1, 0, 0]);
    assert_eq!(h.level_digit, 9);
    assert_eq!(h.combo_digit, Some(5));
    assert_eq!(h.hearts, 8);
    assert_eq!(h.fps_digits, vec![0, 6, 0]);
    let p = hud_counters(0, 3, 1, 4, true, 999);
    assert_eq!(p.combo_digit, None);
    assert_eq!(p.hearts, 0);
    assert_eq!(p.level_digit, 3);
    assert_eq!(hud_counters(0, 1, 12, 2, false, 0).combo_digit, Some(9));
}

#[test]
fn digit_glyphs() {
    let one = glyph_cells(1);
    assert_eq!(one.len(), 10);
    assert_eq!(one[0], (0, 2));
    assert_eq!(one[1], (1, 1));
    assert_eq!(&one[7..], &[(6, 1), (6, 2), (6, 3)]);
    let eight = glyph_cells(8);
    assert_eq!(eight.len(), 17);
    assert_eq!(glyph_cells(200), glyph_cells(9));
    assert_eq!(glyph_cells(0).len(), 19);
}

#[test]
fn box_and_plane_indices() {
    let b = quad_indices(6);
    assert_eq!(b.len(), 36);
    assert_eq!(&b[0..12], &[0, 1, 2, 0, 2, 3, 4, 5, 6, 4, 6, 7]);
    assert!(b.iter().all(|&i| i < 24));
    assert_eq!(quad_indices(1), vec![0, 1, 2, 0, 2, 3]);
}

#[test]
fn sphere_indices_cover_the_vertices() {
    let s = sphere_indices(3, 2);
    assert_eq!(s.len(), 36);
    assert_eq!(&s[0..6], &[0, 4, 1, 1, 4, 5]);
    assert_eq!(&s[30..36], &[6, 10, 7, 7, 10, 11]);
    let small = sphere_indices(0, 0);
    assert_eq!(small, s);
    let big = sphere_indices(16, 12);
    assert_eq!(big.len(), 6 * 16 * 12);
    assert!(big.iter().all(|&i| i < 13 * 17));
    assert_eq!(*big.iter().max().unwrap(), 13 * 17 - 1);
}

#[test]
fn slot_ring_wraps_and_fills() {
    let mut r: SlotRing<char> = SlotRing::new(4);
    for (n, c) in "abcdef".chars().enumerate() {
        let slot = r.push(c);
        assert_eq!(slot as usize, n % 4);
    }
    assert_eq!(r.filled, 4);
    let up = r.drain();
    assert_eq!(up.iter().map(|u| u.index).collect::<Vec<_>>(), vec![0, 1, 2, 3, 0, 1]);
    assert_eq!(up[5].particle, 'f');
    assert!(r.pending.is_empty());
    r.clear();
    assert_eq!((r.cursor, r.filled), (0, 0));
    let mut w: SlotRing<u8> = SlotRing::new(65536);
    w.cursor = u32::MAX;
    assert_eq!(w.push(1), 65535);
    assert_eq!(w.push(2), 0);
}

#[test]
fn upload_runs_split_at_gaps() {
    assert_eq!(upload_runs(&vec![]), vec![]);
    assert_eq!(upload_runs(&vec![5]), vec![(0, 1)]);
    assert_eq!(upload_runs(&vec![3, 4, 5, 9, 10, 0]), vec![(0, 3), (3, 5), (5, 6)]);
    assert_eq!(upload_runs(&vec![u32::MAX, 0, 1]), vec![(0, 3)]);
    assert_eq!(upload_runs(&vec![65535, 0]), vec![(0, 1), (1, 2)]);
}

#[test]
fn capped_pool_replaces_when_full() {
    let mut p: CappedPool<u32> = CappedPool::new(3);
    p.spawn(10, 0);
    p.spawn(11, 0);
    p.spawn(12, 0);
    assert_eq!(p.items, vec![10, 11, 12]);
    p.spawn(13, 7);
    assert_eq!(p.items, vec![10, 13, 12]);
}

#[test]
fn texts() {
    assert_eq!(decimal_string(0), "0");
    assert_eq!(decimal_string(7), "7");
    assert_eq!(decimal_string(10), "10");
    assert_eq!(decimal_string(200), "200");
    assert_eq!(decimal_string(u64::MAX), u64::MAX.to_string());
    assert_eq!(level_label(3, false), "LEVEL 3");
    assert_eq!(level_label(5, true), "LEVEL 5  ·  PRACTICE");
    assert_eq!(battle_overlay(200, 200), "GREEN 200   —   STEEL 200");
    assert_eq!(battle_overlay(0, 0), "Draw  —  R restart");
    assert_eq!(battle_overlay(0, 3), "STEEL wins  —  R restart");
    assert_eq!(battle_overlay(12, 0), "GREEN wins  —  R restart");
    assert_eq!(catalog_source(&vec![]), "glb");
    let notes = vec![
        asset_note("tanks/models/tree.glb", true),
        asset_note("tanks/models/tree2.glb", false),
    ];
    assert_eq!(notes[0], "tanks/models/tree.glb: missing");
    assert_eq!(
        catalog_source(&notes),
        "glb · tanks/models/tree.glb: missing, tanks/models/tree2.glb: fallback"
    );
}

#[test]
fn tank_hits_and_counts() {
    let mut t = TankStatus::new(Team::Green);
    assert_eq!(t.hp, MAX_HP);
    assert!(!t.hit());
    assert!(!t.hit());
    assert!(t.hit());
    assert!(!t.alive());
    let tanks = vec![
        t,
        TankStatus::new(Team::Green),
        TankStatus::new(Team::Steel),
        TankStatus::new(Team::Steel),
    ];
    assert_eq!(alive_counts(&tanks), (1, 2));
    assert_eq!(refresh_overlay(&tanks), "GREEN 1   —   STEEL 2");
    assert_eq!(refresh_overlay(&tanks[..1]), "Draw  —  R restart");
    assert_eq!(refresh_overlay(&tanks[2..]), "STEEL wins  —  R restart");
}

#[test]
fn glb_primitives_and_meshes() {
    assert!(keeps_primitive(true, Some(3)));
    assert!(!keeps_primitive(true, Some(0)));
    assert!(!keeps_primitive(true, None));
    assert!(!keeps_primitive(false, Some(3)));
    assert_eq!(sequential_indices(4), vec![0, 1, 2, 3]);
    assert!(sequential_indices(0).is_empty());
    assert_eq!(finish_meshes(vec![7u8, 9]), Ok(vec![7u8, 9]));
    assert_eq!(
        finish_meshes(Vec::<u8>::new()),
        Err("glb has no triangle meshes".to_string())
    );
}

#[test]
fn shells_hit_living_enemies_but_not_their_shooter() {
    let green = TankStatus::new(Team::Green);
    let steel = TankStatus::new(Team::Steel);
    assert!(shell_can_hit(&steel, 3, Team::Green, 1));
    assert!(!shell_can_hit(&green, 3, Team::Green, 1));
    assert!(!shell_can_hit(&steel, 1, Team::Green, 1));
    let dead = TankStatus { team: Team::Steel, hp: 0 };
    assert!(!shell_can_hit(&dead, 3, Team::Green, 1));
}
