use isomine::float_text::FloatText;
use isomine::mining::RockField;
use isomine::worker::Worker;
use isomine::world::World;

#[test]
fn new_world_has_the_fixed_seeds() {
    let w = World::new();
    let positions: Vec<(usize, usize)> = w.workers.iter().map(|h| (h.x, h.y)).collect();
    assert_eq!(positions, vec![(6, 7), (6, 8), (6, 9)]);
    assert!(w.rocks.contains(1, 8));
    assert!(w.rocks.contains(2, 7));
    assert!(w.rocks.contains(3, 9));
    assert_eq!(w.buildings, vec![(2, 1), (8, 1)]);
    assert!(w.floats.is_empty());
}

#[test]
fn mining_a_rock_to_destruction_spawns_a_label() {
    let mut w = World {
        rocks: RockField::new(&[(1, 8)]),
        workers: vec![Worker::new(1, 8)],
        buildings: Vec::new(),
        floats: Vec::new(),
    };
    // one action per 131 ticks (100 mining + 30 move gap + the action);
    // the third hit, at tick 263, destroys the rock
    let mut spawned_at = 0u32;
    for t in 1..=400u32 {
        w.tick(&[t as u64]);
        assert_eq!((w.workers[0].x, w.workers[0].y), (1, 8));
        if !w.floats.is_empty() {
            spawned_at = t;
            break;
        }
    }
    assert_eq!(spawned_at, 263);
    assert!(!w.rocks.contains(1, 8));
    assert_eq!(w.floats.len(), 1);
    assert_eq!(w.floats[0].text, "+1 Essence");
    // the label sits at the projected rock cell (in thousandths), already
    // advanced once by the frame that spawned it
    assert_eq!(w.floats[0].x, (1 - 8) * 16 * 1000);
    assert_eq!(w.floats[0].y, (1 + 8) * 8 * 1000 - 500);
}

#[test]
fn labels_expire_after_their_lifetime() {
    let mut w = World {
        rocks: RockField::new(&[]),
        workers: Vec::new(),
        buildings: Vec::new(),
        floats: vec![FloatText::new(0, 0, "+1 Essence")],
    };
    let empty: [u64; 0] = [];
    for _ in 0..60 {
        w.tick(&empty);
        assert_eq!(w.floats.len(), 1);
    }
    w.tick(&empty);
    assert!(w.floats.is_empty());
}

#[test]
fn walking_into_a_building_rolls_back_and_pauses() {
    let mut w = World {
        rocks: RockField::new(&[]),
        workers: vec![Worker::new(2, 0)],
        buildings: vec![(2, 1)],
        floats: Vec::new(),
    };
    w.workers[0].set_target(2, 1);
    w.tick(&[0]);
    assert_eq!((w.workers[0].x, w.workers[0].y), (2, 0));
    assert_eq!(w.workers[0].work_ticks, isomine::worker::WORK_DELAY);
}

#[test]
fn workers_standing_on_rocks_stay_put() {
    let mut w = World {
        rocks: RockField::new(&[(6, 7)]),
        workers: vec![Worker::new(6, 7)],
        buildings: Vec::new(),
        floats: Vec::new(),
    };
    // while the rock lasts (it takes three hits, 131 ticks apart), the
    // worker never leaves its cell, whatever randomness arrives
    for t in 0..260u64 {
        w.tick(&[t * 31]);
        assert!(w.rocks.contains(6, 7));
        assert_eq!((w.workers[0].x, w.workers[0].y), (6, 7));
    }
}

#[test]
fn mint_human_appends_a_worker_on_the_top_row() {
    let mut w = World::new();
    w.mint_human(4);
    assert_eq!(w.workers.len(), 4);
    assert_eq!((w.workers[3].x, w.workers[3].y), (4, 0));
}
