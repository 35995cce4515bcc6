use isomine::worker::{Direction, MINE_DELAY, MOVE_DELAY, WORK_DELAY, Worker};

#[test]
fn fresh_worker_faces_right() {
    let w = Worker::new(4, 4);
    assert_eq!(w.direction(), Direction::Right);
    assert_eq!(w.sprite_info(false), (1, false));
}

#[test]
fn direction_follows_last_movement() {
    let mut w = Worker::new(4, 4);
    w.last_x = 3;
    assert_eq!(w.direction(), Direction::Right);
    w.last_x = 5;
    assert_eq!(w.direction(), Direction::Left);
    w.last_x = 4;
    w.last_y = 3;
    assert_eq!(w.direction(), Direction::Down);
    w.last_y = 5;
    assert_eq!(w.direction(), Direction::Up);
}

#[test]
fn sprite_table_matches_direction_and_rock() {
    let mut w = Worker::new(4, 4);
    w.last_y = 5;
    assert_eq!(w.sprite_info(false), (0, false));
    assert_eq!(w.sprite_info(true), (3, false));
    w.last_y = 4;
    w.last_x = 3;
    assert_eq!(w.sprite_info(false), (1, false));
    assert_eq!(w.sprite_info(true), (4, false));
    w.last_x = 5;
    assert_eq!(w.sprite_info(false), (1, true));
    assert_eq!(w.sprite_info(true), (4, true));
    w.last_x = 4;
    w.last_y = 3;
    assert_eq!(w.sprite_info(false), (2, false));
    assert_eq!(w.sprite_info(true), (5, false));
}

#[test]
fn ready_worker_steps_to_selected_neighbour() {
    // candidates from (5, 5), in order: (4,5), (6,5), (5,4), (5,6)
    let mut w = Worker::new(5, 5);
    assert!(!w.update(false, 0));
    assert_eq!((w.x, w.y), (4, 5));
    assert_eq!(w.direction(), Direction::Left);
    assert_eq!(w.sprite_info(false), (1, true));

    let mut w = Worker::new(5, 5);
    w.update(false, 1);
    assert_eq!((w.x, w.y), (6, 5));
    let mut w = Worker::new(5, 5);
    w.update(false, 2);
    assert_eq!((w.x, w.y), (5, 4));
    let mut w = Worker::new(5, 5);
    w.update(false, 3);
    assert_eq!((w.x, w.y), (5, 6));
    // the selection wraps around the candidate count
    let mut w = Worker::new(5, 5);
    w.update(false, 4);
    assert_eq!((w.x, w.y), (4, 5));
}

#[test]
fn corner_worker_stays_on_grid() {
    // candidates from (0, 0): (1,0), (0,1)
    let mut w = Worker::new(0, 0);
    w.update(false, 0);
    assert_eq!((w.x, w.y), (1, 0));
    let mut w = Worker::new(0, 0);
    w.update(false, 1);
    assert_eq!((w.x, w.y), (0, 1));
}

#[test]
fn cooldowns_gate_the_next_action() {
    let mut w = Worker::new(5, 5);
    w.update(false, 0);
    let after_first = (w.x, w.y);
    assert_eq!(w.work_ticks, WORK_DELAY);
    assert_eq!(w.ticks_until_move, MOVE_DELAY);
    // the rest (40) and the move gap (30) both elapse before the next step
    for _ in 0..(WORK_DELAY as usize + MOVE_DELAY as usize) {
        assert!(!w.update(false, 0));
        assert_eq!((w.x, w.y), after_first);
    }
    w.update(false, 0);
    assert_ne!((w.x, w.y), after_first);
}

#[test]
fn mining_tick_reports_hit_and_starts_swing() {
    let mut w = Worker::new(6, 7);
    assert!(w.update(true, 0));
    assert_eq!(w.work_ticks, MINE_DELAY);
    assert_eq!((w.x, w.y), (6, 7));
}

#[test]
fn worker_on_rock_never_moves() {
    let mut w = Worker::new(6, 7);
    for t in 0..300u64 {
        w.update(true, t);
        assert_eq!((w.x, w.y), (6, 7));
    }
}

#[test]
fn set_target_queues_y_first_then_x() {
    let mut w = Worker::new(2, 3);
    w.set_target(5, 1);
    let path: Vec<(usize, usize)> = w.path.iter().copied().collect();
    assert_eq!(path, vec![(2, 2), (2, 1), (3, 1), (4, 1), (5, 1)]);
    assert_eq!(path.len(), 2 + 3);
}

#[test]
fn set_target_walks_up_and_left_too() {
    let mut w = Worker::new(5, 1);
    w.set_target(2, 3);
    let path: Vec<(usize, usize)> = w.path.iter().copied().collect();
    assert_eq!(path, vec![(5, 2), (5, 3), (4, 3), (3, 3), (2, 3)]);
}

#[test]
fn set_target_to_own_cell_queues_nothing() {
    let mut w = Worker::new(7, 7);
    w.set_target(7, 7);
    assert!(w.path.is_empty());
}

#[test]
fn set_target_replaces_the_old_path() {
    let mut w = Worker::new(0, 0);
    w.set_target(0, 9);
    assert_eq!(w.path.len(), 9);
    w.set_target(1, 0);
    let path: Vec<(usize, usize)> = w.path.iter().copied().collect();
    assert_eq!(path, vec![(1, 0)]);
}

#[test]
fn queued_path_is_followed_before_wandering() {
    let mut w = Worker::new(2, 3);
    w.set_target(2, 1);
    w.update(false, 7);
    assert_eq!((w.x, w.y), (2, 2));
    for _ in 0..(WORK_DELAY as usize + MOVE_DELAY as usize) {
        w.update(false, 7);
    }
    w.update(false, 7);
    assert_eq!((w.x, w.y), (2, 1));
}

#[test]
fn pause_sets_the_work_cooldown() {
    let mut w = Worker::new(1, 1);
    w.pause(10);
    assert_eq!(w.work_ticks, 10);
    // a paused worker does not act
    assert!(!w.update(true, 0));
    assert_eq!(w.work_ticks, 9);
}
