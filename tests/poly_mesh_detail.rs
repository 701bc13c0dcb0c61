use recast::PolyMeshDetail;

// The detail mesh of one flat square polygon: four vertices, two triangles.
// Edge flags use two bits per edge, the lower one marking the boundary.
fn square_detail() -> PolyMeshDetail {
    PolyMeshDetail::from_parts(vec![0, 4, 0, 2], vec![3, 0, 2, 0b01_00_01, 0, 1, 2, 0b00_01_01], 4)
        .expect("detail mesh is well formed")
}

#[test]
fn square_detail_has_two_triangles() {
    let detail = square_detail();
    assert_eq!(detail.submeshes_len(), 1);
    let submesh = detail.submesh(0);
    assert_eq!(submesh.triangles_len(), 2);
    assert_eq!(submesh.vertices_range(), 0..4);

    let indices: Vec<Vec<(usize, usize, usize)>> = detail
        .submeshes_iter()
        .iter()
        .map(|s| s.triangles_iter().iter().map(|t| t.vertex_indices()).collect())
        .collect();
    assert_eq!(indices, [[(3, 0, 2), (0, 1, 2)]]);

    let boundaries: Vec<Vec<(bool, bool, bool)>> = detail
        .submeshes_iter()
        .iter()
        .map(|s| s.triangles_iter().iter().map(|t| t.are_edges_on_mesh_boundary()).collect())
        .collect();
    assert_eq!(boundaries, [[(true, false, true), (true, true, false)]]);
    assert_eq!(submesh.triangle(1).vertex_indices(), (0, 1, 2));
}

#[test]
fn square_boundary_edges_cover_the_outline_once() {
    let detail = square_detail();
    let submesh = detail.submesh(0);
    let mut edges = Vec::new();
    for triangle in submesh.triangles_iter() {
        let (a, b, c) = triangle.vertex_indices();
        let (ab, bc, ca) = triangle.are_edges_on_mesh_boundary();
        for (on, p, q) in [(ab, a, b), (bc, b, c), (ca, c, a)] {
            if on {
                edges.push((p.min(q), p.max(q)));
            }
        }
    }
    edges.sort();
    assert_eq!(edges, [(0, 1), (0, 3), (1, 2), (2, 3)]);
}

#[test]
fn only_the_lower_bit_of_each_edge_counts() {
    let detail = PolyMeshDetail::from_parts(vec![0, 3, 0, 2], vec![0, 1, 2, 0b10_10_10, 0, 1, 2, 0b01_10_01], 3)
        .unwrap();
    let triangles = detail.submesh(0).triangles_iter();
    assert_eq!(triangles[0].are_edges_on_mesh_boundary(), (false, false, false));
    assert_eq!(triangles[1].are_edges_on_mesh_boundary(), (true, false, true));
}

#[test]
fn submeshes_index_the_whole_triangle_table() {
    let detail = PolyMeshDetail::from_parts(
        vec![0, 3, 0, 1, 3, 4, 1, 2],
        vec![0, 1, 2, 0, 0, 1, 2, 1, 1, 2, 3, 4],
        7,
    )
    .unwrap();
    assert_eq!(detail.submeshes_len(), 2);
    let second = detail.submesh(1);
    assert_eq!(second.vertices_range(), 3..7);
    assert_eq!(second.triangles_len(), 2);
    assert_eq!(second.triangle(2).vertex_indices(), (1, 2, 3));
    let corners: Vec<(usize, usize, usize)> = second.triangles_iter().iter().map(|t| t.vertex_indices()).collect();
    assert_eq!(corners, [(0, 1, 2), (1, 2, 3)]);
}

#[test]
fn detail_tables_must_agree() {
    // A corner past the submesh's vertices.
    assert!(PolyMeshDetail::from_parts(vec![0, 3, 0, 1], vec![0, 1, 3, 0], 4).is_err());
    // Triangles past the table.
    assert!(PolyMeshDetail::from_parts(vec![0, 3, 0, 2], vec![0, 1, 2, 0], 3).is_err());
    // Vertices past the count.
    assert!(PolyMeshDetail::from_parts(vec![2, 3, 0, 1], vec![0, 1, 2, 0], 4).is_err());
    // Partial records.
    assert!(PolyMeshDetail::from_parts(vec![0, 3, 0], vec![], 3).is_err());
    assert!(PolyMeshDetail::from_parts(vec![], vec![0, 1, 2], 3).is_err());
    assert!(PolyMeshDetail::from_parts(vec![], vec![], 0).is_ok());
}

#[test]
fn triangle_corners_must_differ() {
    assert!(PolyMeshDetail::from_parts(vec![0, 3, 0, 1], vec![0, 1, 1, 0], 3).is_err());
    assert!(PolyMeshDetail::from_parts(vec![0, 3, 0, 1], vec![2, 1, 2, 0], 3).is_err());
    assert!(PolyMeshDetail::from_parts(vec![0, 3, 0, 1], vec![0, 0, 0, 0], 3).is_err());
    assert!(PolyMeshDetail::from_parts(vec![0, 3, 0, 1], vec![2, 1, 0, 0], 3).is_ok());
}
