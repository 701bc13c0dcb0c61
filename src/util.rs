use vstd::prelude::*;

use crate::vector::Vec3;

verus! {

/// A triangle given by three vertex indices refers only to vertices that exist
/// among `vertex_count` of them.
pub open spec fn triangle_in_range(a: int, b: int, c: int, vertex_count: int) -> bool {
    &&& 0 <= a < vertex_count
    &&& 0 <= b < vertex_count
    &&& 0 <= c < vertex_count
}

/// Tells whether every triangle of `triangles` refers only to vertices among
/// the first `vertex_count`. Indexed rasterization and slope marking are only
/// defined on such input.
pub fn triangles_in_range_i32(vertex_count: usize, triangles: &[Vec3<i32>]) -> (r: bool)
    ensures
        r == forall|i: int|
            0 <= i < triangles@.len() ==> triangle_in_range(
                #[trigger] triangles@[i].x as int,
                triangles@[i].y as int,
                triangles@[i].z as int,
                vertex_count as int,
            ),
{
    let mut i: usize = 0;
    while i < triangles.len()
        invariant
            i <= triangles@.len(),
            forall|k: int|
                0 <= k < i ==> triangle_in_range(
                    #[trigger] triangles@[k].x as int,
                    triangles@[k].y as int,
                    triangles@[k].z as int,
                    vertex_count as int,
                ),
        decreases triangles@.len() - i,
    {
        let t = triangles[i];
        if !(index_in_range_i32(t.x, vertex_count) && index_in_range_i32(t.y, vertex_count)
            && index_in_range_i32(t.z, vertex_count)) {
            return false;
        }
        i = i + 1;
    }
    true
}

/// Tells whether every triangle of `triangles` refers only to vertices among
/// the first `vertex_count`.
pub fn triangles_in_range_u16(vertex_count: usize, triangles: &[Vec3<u16>]) -> (r: bool)
    ensures
        r == forall|i: int|
            0 <= i < triangles@.len() ==> triangle_in_range(
                #[trigger] triangles@[i].x as int,
                triangles@[i].y as int,
                triangles@[i].z as int,
                vertex_count as int,
            ),
{
    let mut i: usize = 0;
    while i < triangles.len()
        invariant
            i <= triangles@.len(),
            forall|k: int|
                0 <= k < i ==> triangle_in_range(
                    #[trigger] triangles@[k].x as int,
                    triangles@[k].y as int,
                    triangles@[k].z as int,
                    vertex_count as int,
                ),
        decreases triangles@.len() - i,
    {
        let t = triangles[i];
        if !((t.x as usize) < vertex_count && (t.y as usize) < vertex_count && (t.z as usize)
            < vertex_count) {
            return false;
        }
        i = i + 1;
    }
    true
}

fn index_in_range_i32(index: i32, vertex_count: usize) -> (r: bool)
    ensures
        r == (0 <= index < vertex_count),
{
    0 <= index && (index as usize) < vertex_count
}

/// Tells whether `vertex_count` flat vertices form whole triangles, one for
/// each of `area_count` area ids.
pub fn flat_triangles_match_areas(vertex_count: usize, area_count: usize) -> (r: bool)
    ensures
        r == (vertex_count % 3 == 0 && vertex_count / 3 == area_count),
{
    vertex_count % 3 == 0 && vertex_count / 3 == area_count
}

} // verus!
