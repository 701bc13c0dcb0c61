use recast::{
    Context, Contour, ContourBuildFlags, ContourSet, ContourVertex, INVALID_AREA_ID, NULL_INDEX,
    WALKABLE_AREA_ID,
};

#[test]
fn build_flags_map_to_bits() {
    let flags = |wall, area| ContourBuildFlags { tessellate_wall_edges: wall, tessellate_area_edges: area };
    assert_eq!(flags(false, false).bits(), 0);
    assert_eq!(flags(true, false).bits(), 1);
    assert_eq!(flags(false, true).bits(), 2);
    assert_eq!(flags(true, true).bits(), 3);
}

#[test]
fn default_flags_tessellate_wall_edges_only() {
    let flags = ContourBuildFlags::default();
    assert!(flags.tessellate_wall_edges);
    assert!(!flags.tessellate_area_edges);
    assert_eq!(flags.bits(), 1);
}

#[test]
fn contour_set_keeps_its_contours() {
    let vertex = |x, z| ContourVertex { x, y: 1, z, flags: 0 };
    let contour = Contour {
        vertices: vec![vertex(1, 1), vertex(1, 4), vertex(4, 4), vertex(4, 1)],
        region_id: 1,
        area_id: WALKABLE_AREA_ID,
    };
    let set = ContourSet::from_contours(vec![contour]);
    assert_eq!(set.len(), 1);
    assert_eq!(set.contours()[0].vertices.len(), 4);
    assert_eq!(set.contours()[0].region_id, 1);
    assert!(ContourSet::from_contours(vec![]).contours().is_empty());
}

#[test]
fn constants_and_context() {
    assert_eq!(WALKABLE_AREA_ID, 63);
    assert_eq!(INVALID_AREA_ID, 0);
    assert_eq!(NULL_INDEX, 0xffff);
    assert!(!Context::new().diagnostics_enabled());
}
