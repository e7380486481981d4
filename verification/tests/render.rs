use shapez::nodefx::NodeFXGraph;
use shapez::tracer::{Tile, Tracer};

#[test]
fn tiles_cover_the_image_row_by_row() {
    let t = Tracer::new();
    let tiles = t.create_tiles(200, 100, 80, 80);
    assert_eq!(tiles.len(), 6);
    assert_eq!(tiles[0], Tile { x: 0, y: 0, width: 80, height: 80 });
    assert_eq!(tiles[2], Tile { x: 160, y: 0, width: 80, height: 80 });
    assert_eq!(tiles[3], Tile { x: 0, y: 80, width: 80, height: 80 });
    assert_eq!(tiles[5], Tile { x: 160, y: 80, width: 80, height: 80 });
    for py in 0..100 {
        for px in 0..200 {
            let n = tiles
                .iter()
                .filter(|t| t.x <= px && px < t.x + t.width && t.y <= py && py < t.y + t.height)
                .count();
            assert_eq!(n, 1);
        }
    }
}

#[test]
fn tiles_of_exact_and_empty_images() {
    let t = Tracer::new();
    assert_eq!(t.create_tiles(160, 80, 80, 80).len(), 2);
    assert!(t.create_tiles(0, 80, 80, 80).is_empty());
    assert!(t.create_tiles(80, 0, 80, 80).is_empty());
    assert_eq!(t.create_tiles(1, 1, 80, 80), vec![Tile { x: 0, y: 0, width: 80, height: 80 }]);
}

#[test]
fn graph_connections() {
    let g = NodeFXGraph {
        connections: vec![(0, 0, 1, 0), (0, 1, 2, 0), (3, 0, 2, 1), (0, 0, 4, 2)],
        selected_node: None,
    };
    assert_eq!(g.find_connected_input_node(0, 0), Some((1, 0)));
    assert_eq!(g.find_connected_input_node(0, 1), Some((2, 0)));
    assert_eq!(g.find_connected_input_node(1, 0), None);
    assert_eq!(g.find_connected_input_node(65536, 256), Some((1, 0)));
    assert_eq!(g.find_connected_output_node(2, 1), Some(3));
    assert_eq!(g.find_connected_output_node(4, 2), Some(0));
    assert_eq!(g.find_connected_output_node(4, 0), None);
}
