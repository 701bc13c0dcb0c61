use recast::util::{flat_triangles_match_areas, triangles_in_range_i32, triangles_in_range_u16};
use recast::Vec3;

#[test]
fn accepts_triangles_within_the_vertices() {
    assert!(triangles_in_range_i32(3, &[Vec3::new(0, 1, 2)]));
    assert!(triangles_in_range_i32(8, &[Vec3::new(0, 2, 1), Vec3::new(6, 3, 7)]));
    assert!(triangles_in_range_i32(0, &[]));
}

#[test]
fn rejects_each_out_of_range_index() {
    let invalid = [
        Vec3::new(-1, 1, 2),
        Vec3::new(10, 1, 2),
        Vec3::new(0, -2, 2),
        Vec3::new(0, 20, 2),
        Vec3::new(0, 1, -3),
        Vec3::new(0, 1, 30),
    ];
    for triangle in invalid {
        assert!(!triangles_in_range_i32(3, &[triangle]), "{:?}", triangle);
        assert!(!triangles_in_range_i32(3, &[Vec3::new(0, 1, 2), triangle]));
    }
}

#[test]
fn index_equal_to_vertex_count_is_out_of_range() {
    assert!(!triangles_in_range_i32(3, &[Vec3::new(0, 1, 3)]));
    assert!(!triangles_in_range_i32(3, &[Vec3::new(3, 1, 0)]));
    assert!(!triangles_in_range_u16(3, &[Vec3::new(0, 3, 1)]));
}

#[test]
fn u16_indices_compare_against_the_full_count() {
    assert!(triangles_in_range_u16(3, &[Vec3::new(0, 1, 2)]));
    assert!(!triangles_in_range_u16(3, &[Vec3::new(10, 1, 2)]));
    assert!(triangles_in_range_u16(70_000, &[Vec3::new(65_535, 0, 1)]));
    assert!(!triangles_in_range_u16(65_535, &[Vec3::new(65_535, 0, 1)]));
}

#[test]
fn flat_vertices_need_one_area_per_triangle() {
    assert!(flat_triangles_match_areas(6, 2));
    assert!(flat_triangles_match_areas(0, 0));
    assert!(!flat_triangles_match_areas(7, 2));
    assert!(!flat_triangles_match_areas(6, 3));
    assert!(!flat_triangles_match_areas(6, 1));
}
