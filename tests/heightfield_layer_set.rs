use recast::{HeightfieldLayer, HeightfieldLayerSet, Vec3, WALKABLE_AREA_ID};

const N: u8 = 0xff;
const W: u8 = WALKABLE_AREA_ID;

fn eroded_room_layer() -> HeightfieldLayer {
    let heights = vec![
        N, N, N, N, N, //
        N, 0, 0, 0, N, //
        N, 0, 0, 0, N, //
        N, 0, 0, 0, N, //
        N, N, N, N, N, //
    ];
    let areas = vec![
        0, 0, 0, 0, 0, //
        0, W, W, W, 0, //
        0, W, W, W, 0, //
        0, W, W, W, 0, //
        0, 0, 0, 0, 0, //
    ];
    let cons = vec![
        0b0000, 0b0000, 0b0000, 0b0000, 0b0000, //
        0b0000, 0b0110, 0b0111, 0b0011, 0b0000, //
        0b0000, 0b1110, 0b1111, 0b1011, 0b0000, //
        0b0000, 0b1100, 0b1101, 0b1001, 0b0000, //
        0b0000, 0b0000, 0b0000, 0b0000, 0b0000, //
    ];
    HeightfieldLayer::from_parts(5, 5, Vec3::new(1, 1, 1), Vec3::new(3, 1, 3), heights, areas, cons)
        .expect("layer is well formed")
}

#[test]
fn eroded_room_layer_is_inset_by_one_cell() {
    let set = HeightfieldLayerSet::from_layers(vec![eroded_room_layer()]);
    assert_eq!(set.len(), 1);
    let layers = set.as_vec();
    assert_eq!(layers.len(), 1);
    let layer = layers[0];
    assert_eq!(layer.grid_width(), 5);
    assert_eq!(layer.grid_height(), 5);
    assert_eq!(layer.grid_min_bounds(), Vec3::new(1, 1, 1));
    assert_eq!(layer.grid_max_bounds(), Vec3::new(3, 1, 3));
    assert_eq!(layer.grid_min_bounds().x, 1);
    assert_eq!(layer.grid_width() - 1 - layer.grid_max_bounds().x, 1);
    assert_eq!(layer.heights()[6], 0);
    assert_eq!(layer.heights()[0], N);
    assert_eq!(layer.areas()[12], W);
    assert_eq!(layer.packed_connection_info()[12], 0b1111);
    assert_eq!(set.get_layer(0).areas().len(), 25);
}

#[test]
fn layer_bounds_must_stay_in_the_grid() {
    let t = || vec![0u8; 4];
    assert!(HeightfieldLayer::from_parts(2, 2, Vec3::new(0, 0, 0), Vec3::new(1, 0, 1), t(), t(), t()).is_ok());
    assert!(HeightfieldLayer::from_parts(2, 2, Vec3::new(0, 0, 0), Vec3::new(2, 0, 1), t(), t(), t()).is_err());
    assert!(HeightfieldLayer::from_parts(2, 2, Vec3::new(1, 0, 0), Vec3::new(0, 0, 1), t(), t(), t()).is_err());
    assert!(HeightfieldLayer::from_parts(2, 2, Vec3::new(0, 0, -1), Vec3::new(1, 0, 1), t(), t(), t()).is_err());
    assert!(HeightfieldLayer::from_parts(2, 2, Vec3::new(0, 3, 0), Vec3::new(1, 2, 1), t(), t(), t()).is_err());
}

#[test]
fn layer_tables_hold_one_entry_per_cell() {
    let b = Vec3::new(0, 0, 0);
    assert!(HeightfieldLayer::from_parts(2, 2, b, b, vec![0; 3], vec![0; 4], vec![0; 4]).is_err());
    assert!(HeightfieldLayer::from_parts(2, 2, b, b, vec![0; 4], vec![0; 5], vec![0; 4]).is_err());
    assert!(HeightfieldLayer::from_parts(2, 2, b, b, vec![0; 4], vec![0; 4], vec![]).is_err());
    assert!(HeightfieldLayer::from_parts(0, 2, b, b, vec![], vec![], vec![]).is_err());
}

#[test]
fn empty_layer_set() {
    let set = HeightfieldLayerSet::from_layers(vec![]);
    assert_eq!(set.len(), 0);
    assert!(set.as_vec().is_empty());
}
