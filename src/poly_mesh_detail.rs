use vstd::prelude::*;

use std::ops::Range;

verus! {

/// The content of a detail mesh. Submesh `m` owns the four entries of
/// `meshes` from `4 * m`: first vertex, vertex count, first triangle and
/// triangle count. Triangle `t` owns the four entries of `triangles` from
/// `4 * t`: three vertex indices, local to its submesh, and the edge flags.
pub struct PolyMeshDetailView {
    pub meshes: Seq<u32>,
    pub triangles: Seq<u8>,
    pub vertices_len: int,
}

impl PolyMeshDetailView {
    pub open spec fn submeshes_len(self) -> int {
        self.meshes.len() as int / 4
    }

    pub open spec fn vertex_base(self, m: int) -> int {
        self.meshes[4 * m] as int
    }

    pub open spec fn vertex_count(self, m: int) -> int {
        self.meshes[4 * m + 1] as int
    }

    pub open spec fn triangle_base(self, m: int) -> int {
        self.meshes[4 * m + 2] as int
    }

    pub open spec fn triangle_count(self, m: int) -> int {
        self.meshes[4 * m + 3] as int
    }

    pub open spec fn triangles_len(self) -> int {
        self.triangles.len() as int / 4
    }

    /// Corner `c` (0, 1 or 2) of triangle `t`.
    pub open spec fn corner(self, t: int, c: int) -> u8 {
        self.triangles[4 * t + c]
    }

    pub open spec fn edge_flags(self, t: int) -> u8 {
        self.triangles[4 * t + 3]
    }

    /// The three corners of triangle `t` are different vertices.
    pub open spec fn corners_distinct(self, t: int) -> bool {
        &&& self.corner(t, 0) != self.corner(t, 1)
        &&& self.corner(t, 1) != self.corner(t, 2)
        &&& self.corner(t, 2) != self.corner(t, 0)
    }

    /// Submesh `m` uses vertices and triangles that exist, and its triangles
    /// join three different vertices of its own.
    pub open spec fn submesh_ok(self, m: int) -> bool {
        &&& self.vertex_base(m) + self.vertex_count(m) <= self.vertices_len
        &&& self.triangle_base(m) + self.triangle_count(m) <= self.triangles_len()
        &&& forall|t: int, c: int|
            self.triangle_base(m) <= t < self.triangle_base(m) + self.triangle_count(m) && 0 <= c < 3
                ==> (#[trigger] self.corner(t, c) as int) < self.vertex_count(m)
        &&& forall|t: int|
            self.triangle_base(m) <= t < self.triangle_base(m) + self.triangle_count(m)
                ==> #[trigger] self.corners_distinct(t)
    }

    pub open spec fn wf(self) -> bool {
        &&& self.meshes.len() % 4 == 0
        &&& self.triangles.len() % 4 == 0
        &&& forall|m: int| 0 <= m < self.submeshes_len() ==> #[trigger] self.submesh_ok(m)
    }
}

/// Edge `e` (0: corner 0 to 1, 1: corner 1 to 2, 2: corner 2 to 0) of a
/// triangle with these flags lies on the boundary of its polygon. Each edge
/// has two bits, the boundary mark being the lower one.
pub open spec fn edge_on_boundary(flags: u8, e: int) -> bool {
    if e == 0 {
        flags as int % 2 == 1
    } else if e == 1 {
        (flags as int / 4) % 2 == 1
    } else {
        (flags as int / 16) % 2 == 1
    }
}

/// Tells whether submesh `m` is well formed.
fn submesh_is_well_formed(
    meshes: &Vec<u32>,
    triangles: &Vec<u8>,
    vertices_len: usize,
    m: usize,
    Ghost(v): Ghost<PolyMeshDetailView>,
) -> (r: bool)
    requires
        v.meshes == meshes@,
        v.triangles == triangles@,
        v.vertices_len == vertices_len,
        4 * m + 4 <= meshes@.len(),
        triangles@.len() % 4 == 0,
    ensures
        r == v.submesh_ok(m as int),
{
    assert(meshes@.len() == meshes.len() && triangles@.len() == triangles.len());
    let vbase = meshes[4 * m] as u64;
    let vcount = meshes[4 * m + 1] as u64;
    let tbase = meshes[4 * m + 2] as u64;
    let tcount = meshes[4 * m + 3] as u64;
    if vbase + vcount > vertices_len as u64 {
        return false;
    }
    let ntris = triangles.len() / 4;
    if tbase + tcount > ntris as u64 {
        return false;
    }
    let end = (tbase + tcount) as usize;
    let mut t = tbase as usize;
    while t < end
        invariant
            v.meshes == meshes@,
            v.triangles == triangles@,
            triangles@.len() % 4 == 0,
            triangles@.len() <= usize::MAX,
            4 * m + 4 <= meshes@.len(),
            tbase == v.triangle_base(m as int),
            vcount == v.vertex_count(m as int),
            end == v.triangle_base(m as int) + v.triangle_count(m as int),
            end <= triangles@.len() / 4,
            tbase <= t <= end,
            forall|u: int, c: int|
                tbase <= u < t && 0 <= c < 3 ==> (#[trigger] v.corner(u, c) as int) < vcount,
            forall|u: int| tbase <= u < t ==> #[trigger] v.corners_distinct(u),
        decreases end - t,
    {
        let mut c: usize = 0;
        while c < 3
            invariant
                v.meshes == meshes@,
                v.triangles == triangles@,
                triangles@.len() % 4 == 0,
                triangles@.len() <= usize::MAX,
                4 * m + 4 <= meshes@.len(),
                tbase == v.triangle_base(m as int),
                vcount == v.vertex_count(m as int),
                end == v.triangle_base(m as int) + v.triangle_count(m as int),
                tbase <= t < end <= triangles@.len() / 4,
                c <= 3,
                forall|d: int| 0 <= d < c ==> (#[trigger] v.corner(t as int, d) as int) < vcount,
            decreases 3 - c,
        {
            if triangles[4 * t + c] as u64 >= vcount {
                assert(!((v.corner(t as int, c as int) as int) < vcount));
                assert(!v.submesh_ok(m as int));
                return false;
            }
            c = c + 1;
        }
        let i = 4 * t;
        if triangles[i] == triangles[i + 1] || triangles[i + 1] == triangles[i + 2] || triangles[i
            + 2] == triangles[i] {
            assert(!v.corners_distinct(t as int));
            assert(!v.submesh_ok(m as int));
            return false;
        }
        t = t + 1;
    }
    true
}

fn span_range(start: usize, len: usize) -> (r: Range<usize>)
    requires
        start + len <= usize::MAX,
    ensures
        r.start == start,
        r.end == start + len,
{
    start..start + len
}

/// A detail mesh: per polygon of a polygon mesh, a submesh of triangles that
/// follows the true surface height. The vertex positions stay with the caller;
/// this holds how they are shared out and how the triangles use them.
pub struct PolyMeshDetail {
    meshes: Vec<u32>,
    triangles: Vec<u8>,
    vertices_len: usize,
}

impl View for PolyMeshDetail {
    type V = PolyMeshDetailView;

    closed spec fn view(&self) -> PolyMeshDetailView {
        PolyMeshDetailView {
            meshes: self.meshes@,
            triangles: self.triangles@,
            vertices_len: self.vertices_len as int,
        }
    }
}

impl PolyMeshDetail {
    #[verifier::type_invariant]
    closed spec fn inv(&self) -> bool {
        self@.wf()
    }

    /// Builds a detail mesh from its submesh table (four entries per submesh),
    /// its triangle table (four entries per triangle) and the number of
    /// vertices. Fails unless every submesh uses vertices and triangles that
    /// exist and its triangles name only its own vertices.
    pub fn from_parts(meshes: Vec<u32>, triangles: Vec<u8>, vertices_len: usize) -> (r: Result<
        PolyMeshDetail,
        (),
    >)
        ensures
            ({
                let v = PolyMeshDetailView {
                    meshes: meshes@,
                    triangles: triangles@,
                    vertices_len: vertices_len as int,
                };
                &&& r is Ok <==> v.wf()
                &&& r matches Ok(d) ==> d@ == v
            }),
    {
        let ghost v = PolyMeshDetailView {
            meshes: meshes@,
            triangles: triangles@,
            vertices_len: vertices_len as int,
        };
        if meshes.len() % 4 != 0 || triangles.len() % 4 != 0 {
            return Err(());
        }
        let n = meshes.len() / 4;
        let mut m: usize = 0;
        while m < n
            invariant
                v == (PolyMeshDetailView {
                    meshes: meshes@,
                    triangles: triangles@,
                    vertices_len: vertices_len as int,
                }),
                meshes@.len() % 4 == 0,
                triangles@.len() % 4 == 0,
                n == v.submeshes_len(),
                m <= n,
                forall|k: int| 0 <= k < m ==> #[trigger] v.submesh_ok(k),
            decreases n - m,
        {
            if !submesh_is_well_formed(&meshes, &triangles, vertices_len, m, Ghost(v)) {
                return Err(());
            }
            m = m + 1;
        }
        Ok(PolyMeshDetail { meshes, triangles, vertices_len })
    }

    pub fn submeshes_len(&self) -> (r: usize)
        ensures
            r == self@.submeshes_len(),
            self@.wf(),
    {
        proof {
            use_type_invariant(self);
        }
        self.meshes.len() / 4
    }

    /// The submesh at `index`.
    pub fn submesh(&self, index: usize) -> (r: PolyMeshDetailSubmesh<'_>)
        requires
            index < self@.submeshes_len(),
        ensures
            r@ == (DetailElementView { detail: self@, index: index as int }),
    {
        PolyMeshDetailSubmesh { poly_mesh_detail: self, index }
    }

    /// Every submesh, in order.
    pub fn submeshes_iter(&self) -> (r: Vec<PolyMeshDetailSubmesh<'_>>)
        ensures
            r@.len() == self@.submeshes_len(),
            forall|i: int|
                0 <= i < r@.len() ==> (#[trigger] r@[i])@ == (DetailElementView {
                    detail: self@,
                    index: i,
                }),
    {
        let n = self.submeshes_len();
        let mut out: Vec<PolyMeshDetailSubmesh<'_>> = Vec::new();
        let mut i: usize = 0;
        while i < n
            invariant
                n == self@.submeshes_len(),
                i <= n,
                out@.len() == i,
                forall|k: int|
                    0 <= k < i ==> (#[trigger] out@[k])@ == (DetailElementView {
                        detail: self@,
                        index: k,
                    }),
            decreases n - i,
        {
            out.push(self.submesh(i));
            i = i + 1;
        }
        out
    }
}

/// A submesh or a triangle of a detail mesh, named by its index.
pub struct DetailElementView {
    pub detail: PolyMeshDetailView,
    pub index: int,
}

/// The submesh of one polygon, borrowed from its detail mesh.
pub struct PolyMeshDetailSubmesh<'a> {
    poly_mesh_detail: &'a PolyMeshDetail,
    index: usize,
}

impl<'a> View for PolyMeshDetailSubmesh<'a> {
    type V = DetailElementView;

    closed spec fn view(&self) -> DetailElementView {
        DetailElementView { detail: self.poly_mesh_detail@, index: self.index as int }
    }
}

impl<'a> PolyMeshDetailSubmesh<'a> {
    #[verifier::type_invariant]
    closed spec fn inv(&self) -> bool {
        self.index < self.poly_mesh_detail@.submeshes_len()
    }

    /// The indices, into the detail mesh's vertices, of this submesh's
    /// vertices.
    pub fn vertices_range(&self) -> (r: Range<usize>)
        ensures
            r.start == self@.detail.vertex_base(self@.index),
            r.end == self@.detail.vertex_base(self@.index) + self@.detail.vertex_count(self@.index),
    {
        proof {
            use_type_invariant(self);
            use_type_invariant(self.poly_mesh_detail);
            assert(self@.detail.submesh_ok(self@.index));
        }
        let d = self.poly_mesh_detail;
        assert(d.meshes@.len() == d.meshes.len());
        let start = d.meshes[4 * self.index] as usize;
        let len = d.meshes[4 * self.index + 1] as usize;
        span_range(start, len)
    }

    pub fn triangles_len(&self) -> (r: usize)
        ensures
            r == self@.detail.triangle_count(self@.index),
    {
        proof {
            use_type_invariant(self);
            use_type_invariant(self.poly_mesh_detail);
        }
        assert(self.poly_mesh_detail.meshes@.len() == self.poly_mesh_detail.meshes.len());
        self.poly_mesh_detail.meshes[4 * self.index + 3] as usize
    }

    /// The triangle at `index`, counted over the whole detail mesh; it must be
    /// one of this submesh's triangles.
    pub fn triangle(&self, index: usize) -> (r: PolyMeshDetailTriangle<'a>)
        requires
            self@.detail.triangle_base(self@.index) <= index < self@.detail.triangle_base(self@.index)
                + self@.detail.triangle_count(self@.index),
        ensures
            r@ == (DetailElementView { detail: self@.detail, index: index as int }),
    {
        proof {
            use_type_invariant(self);
            use_type_invariant(self.poly_mesh_detail);
            assert(self@.detail.submesh_ok(self@.index));
        }
        PolyMeshDetailTriangle { poly_mesh_detail: self.poly_mesh_detail, index }
    }

    /// This submesh's triangles, in order.
    pub fn triangles_iter(&self) -> (r: Vec<PolyMeshDetailTriangle<'a>>)
        ensures
            r@.len() == self@.detail.triangle_count(self@.index),
            forall|i: int|
                0 <= i < r@.len() ==> (#[trigger] r@[i])@ == (DetailElementView {
                    detail: self@.detail,
                    index: self@.detail.triangle_base(self@.index) + i,
                }),
    {
        proof {
            use_type_invariant(self);
            use_type_invariant(self.poly_mesh_detail);
            assert(self@.detail.submesh_ok(self@.index));
        }
        let d = self.poly_mesh_detail;
        assert(d.meshes@.len() == d.meshes.len());
        let base = d.meshes[4 * self.index + 2] as usize;
        let count = d.meshes[4 * self.index + 3] as usize;
        let ntris = d.triangles.len() / 4;
        let mut out: Vec<PolyMeshDetailTriangle<'a>> = Vec::new();
        let mut i: usize = 0;
        while i < count
            invariant
                base == self@.detail.triangle_base(self@.index),
                count == self@.detail.triangle_count(self@.index),
                base + count <= ntris,
                i <= count,
                out@.len() == i,
                forall|k: int|
                    0 <= k < i ==> (#[trigger] out@[k])@ == (DetailElementView {
                        detail: self@.detail,
                        index: base + k,
                    }),
            decreases count - i,
        {
            out.push(self.triangle(base + i));
            i = i + 1;
        }
        out
    }
}

/// A triangle of a detail mesh, borrowed from it.
pub struct PolyMeshDetailTriangle<'a> {
    poly_mesh_detail: &'a PolyMeshDetail,
    index: usize,
}

impl<'a> View for PolyMeshDetailTriangle<'a> {
    type V = DetailElementView;

    closed spec fn view(&self) -> DetailElementView {
        DetailElementView { detail: self.poly_mesh_detail@, index: self.index as int }
    }
}

impl<'a> PolyMeshDetailTriangle<'a> {
    #[verifier::type_invariant]
    closed spec fn inv(&self) -> bool {
        self.index < self.poly_mesh_detail@.triangles_len()
    }

    /// The triangle's three corners, as indices into its submesh's vertices.
    pub fn vertex_indices(&self) -> (r: (usize, usize, usize))
        ensures
            r.0 == self@.detail.corner(self@.index, 0),
            r.1 == self@.detail.corner(self@.index, 1),
            r.2 == self@.detail.corner(self@.index, 2),
    {
        proof {
            use_type_invariant(self);
            use_type_invariant(self.poly_mesh_detail);
        }
        let t = &self.poly_mesh_detail.triangles;
        assert(t@.len() == t.len());
        let i = 4 * self.index;
        (t[i] as usize, t[i + 1] as usize, t[i + 2] as usize)
    }

    /// Whether each edge lies on the boundary of the polygon: the edges from
    /// corner 0 to 1, from 1 to 2 and from 2 to 0.
    pub fn are_edges_on_mesh_boundary(&self) -> (r: (bool, bool, bool))
        ensures
            r.0 == edge_on_boundary(self@.detail.edge_flags(self@.index), 0),
            r.1 == edge_on_boundary(self@.detail.edge_flags(self@.index), 1),
            r.2 == edge_on_boundary(self@.detail.edge_flags(self@.index), 2),
    {
        proof {
            use_type_invariant(self);
            use_type_invariant(self.poly_mesh_detail);
        }
        assert(self.poly_mesh_detail.triangles@.len() == self.poly_mesh_detail.triangles.len());
        let flags = self.poly_mesh_detail.triangles[4 * self.index + 3];
        assert((flags & 1 != 0) == (flags % 2 == 1)) by (bit_vector);
        assert((flags & 4 != 0) == ((flags / 4) % 2 == 1)) by (bit_vector);
        assert((flags & 16 != 0) == ((flags / 16) % 2 == 1)) by (bit_vector);
        (flags & 1 != 0, flags & 4 != 0, flags & 16 != 0)
    }
}

} // verus!
