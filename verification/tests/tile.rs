use shapez::tile::Tile;

#[test]
fn new_tile_is_empty() {
    let t = Tile::new(4);
    assert_eq!(t.voxels.len(), 64);
    assert!(t.is_empty());
    assert_eq!(t.voxel_counter, 0);
    assert_eq!(t.get((0, 0, 0)), None);
    assert_eq!(t.get((3, 3, 3)), None);
}

#[test]
fn set_get_clear() {
    let mut t = Tile::new(4);
    t.set((1, 2, 3), 5);
    assert_eq!(t.get((1, 2, 3)), Some(5));
    assert_eq!(t.get((3, 2, 1)), None);
    assert_eq!(t.voxels[3 * 16 + 2 * 4 + 1], Some(5));
    t.set((4, 0, 0), 9);
    t.set((-1, 0, 0), 9);
    assert_eq!(t.get((4, 0, 0)), None);
    assert_eq!(t.voxels.iter().filter(|v| v.is_some()).count(), 1);
    t.clear((1, 2, 3));
    assert_eq!(t.get((1, 2, 3)), None);
}

#[test]
fn bounding_box_is_tight() {
    let mut t = Tile::new(8);
    t.update_bbox();
    assert!(t.is_empty());
    assert_eq!(t.bbox.min, (0, 0, 0));
    assert_eq!(t.bbox.max, (0, 0, 0));
    t.set((1, 5, 2), 1);
    t.set((6, 2, 3), 2);
    t.set((3, 3, 7), 3);
    assert!(t.is_empty());
    t.update_bbox();
    assert!(!t.is_empty());
    assert_eq!(t.voxel_counter, 3);
    assert_eq!(t.bbox.min, (1, 2, 2));
    assert_eq!(t.bbox.max, (7, 6, 8));
    t.clear((6, 2, 3));
    assert_eq!(t.voxel_counter, 3);
    t.update_bbox();
    assert_eq!(t.voxel_counter, 2);
    assert_eq!(t.bbox.min, (1, 3, 2));
    assert_eq!(t.bbox.max, (4, 6, 8));
}
