use isomine::iso::{HALF_TILE_H, HALF_TILE_W, iso};

#[test]
fn origin_projects_to_origin_for_any_extents() {
    assert_eq!(iso(0, 0, HALF_TILE_W, HALF_TILE_H), (0, 0));
    assert_eq!(iso(0, 0, 1, 1), (0, 0));
    assert_eq!(iso(0, 0, 123456, -9), (0, 0));
    assert_eq!(iso(0, 0, i32::MAX, i32::MIN), (0, 0));
}

#[test]
fn unit_cells_project_mirror_symmetric() {
    let right = iso(1, 0, HALF_TILE_W, HALF_TILE_H);
    let left = iso(0, 1, HALF_TILE_W, HALF_TILE_H);
    assert_eq!(right, (16, 8));
    assert_eq!(left, (-16, 8));
    assert_eq!(right.0, -left.0);
    assert_eq!(right.1, left.1);
    // the symmetry holds for other extents too
    let a = iso(1, 0, 37, 11);
    let b = iso(0, 1, 37, 11);
    assert_eq!(a.0, -b.0);
    assert_eq!(a.1, b.1);
}

#[test]
fn projection_matches_the_formula() {
    assert_eq!(iso(3, 7, HALF_TILE_W, HALF_TILE_H), ((3 - 7) * 16, (3 + 7) * 8));
    assert_eq!(iso(9, 0, 16, 8), (144, 72));
    assert_eq!(iso(5, 5, 16, 8), (0, 80));
}
