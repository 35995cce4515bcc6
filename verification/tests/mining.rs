use isomine::mining::RockField;

#[test]
fn seeded_rocks_are_tracked() {
    let field = RockField::new(&[(1, 8), (2, 7), (3, 9)]);
    assert!(field.contains(1, 8));
    assert!(field.contains(2, 7));
    assert!(field.contains(3, 9));
    assert!(!field.contains(0, 0));
    assert!(!field.contains(6, 7));
}

#[test]
fn three_hits_destroy_a_rock() {
    let mut field = RockField::new(&[(1, 8)]);
    let results = [field.on_mine(1, 8), field.on_mine(1, 8), field.on_mine(1, 8)];
    assert_eq!(results, [false, false, true]);
    assert!(!field.contains(1, 8));
}

#[test]
fn destroyed_rock_stays_gone() {
    let mut field = RockField::new(&[(2, 7)]);
    field.on_mine(2, 7);
    field.on_mine(2, 7);
    assert!(field.on_mine(2, 7));
    assert!(!field.on_mine(2, 7));
    assert!(!field.contains(2, 7));
}

#[test]
fn mining_untracked_cell_is_noop() {
    let mut field = RockField::new(&[(1, 8)]);
    assert!(!field.on_mine(5, 5));
    assert!(!field.on_mine(0, 0));
    assert!(field.contains(1, 8));
    // the untouched rock still needs its full three hits
    assert!(!field.on_mine(1, 8));
    assert!(!field.on_mine(1, 8));
    assert!(field.on_mine(1, 8));
}

#[test]
fn mining_off_grid_is_noop() {
    let mut field = RockField::new(&[(1, 8)]);
    assert!(!field.on_mine(10, 8));
    assert!(!field.on_mine(1, 10));
    assert!(!field.on_mine(usize::MAX, usize::MAX));
    assert!(field.contains(1, 8));
}

#[test]
fn duplicate_seed_positions_collapse() {
    let mut field = RockField::new(&[(4, 4), (4, 4)]);
    assert!(field.contains(4, 4));
    assert!(!field.on_mine(4, 4));
    assert!(!field.on_mine(4, 4));
    assert!(field.on_mine(4, 4));
    assert!(!field.contains(4, 4));
}

#[test]
fn empty_field_tracks_nothing() {
    let mut field = RockField::new(&[]);
    assert!(!field.contains(0, 0));
    assert!(!field.on_mine(0, 0));
}
