use vstd::prelude::*;

use vstd::arithmetic::div_mod::{lemma_fundamental_div_mod, lemma_div_multiples_vanish, lemma_mod_multiples_basic};

use crate::vector::Vec3;

verus! {

/// Fills the vertex and neighbour slots that a polygon does not use.
pub const NULL_INDEX: u16 = 0xffff;

/// Neighbour values at or above this one are no polygon: they are the null
/// index, or mark an edge on the border of a tile.
pub const EXTERNAL_LINK: u16 = 0x8000;

/// The largest number of vertices a polygon mesh may hold.
pub const MAX_MESH_VERTICES: usize = 0xfffe;

/// The content of a polygon mesh. Polygon `p` owns `2 * nvp` consecutive
/// slots of `polys`: first its vertex indices, then, for each edge, the
/// polygon across it.
pub struct PolyMeshView {
    pub vertices: Seq<Vec3<u16>>,
    pub polys: Seq<u16>,
    pub regions: Seq<u16>,
    pub flags: Seq<u16>,
    pub areas: Seq<u8>,
    pub nvp: int,
    pub border_size: int,
}

impl PolyMeshView {
    pub open spec fn polygons_len(self) -> int {
        self.regions.len() as int
    }

    pub open spec fn vertex_slot(self, p: int, j: int) -> u16 {
        self.polys[2 * self.nvp * p + j]
    }

    pub open spec fn neighbour_slot(self, p: int, j: int) -> u16 {
        self.polys[2 * self.nvp * p + self.nvp + j]
    }

    /// The vertex slots of polygon `p`, used or not.
    pub open spec fn vertex_slots(self, p: int) -> Seq<u16> {
        self.polys.subrange(2 * self.nvp * p, 2 * self.nvp * p + self.nvp)
    }

    /// The neighbour slots of polygon `p`, used or not.
    pub open spec fn neighbour_slots(self, p: int) -> Seq<u16> {
        self.polys.subrange(2 * self.nvp * p + self.nvp, 2 * self.nvp * p + 2 * self.nvp)
    }

    /// The first slot of polygon `p`, from `j` on, that holds no vertex (or
    /// `nvp` when all of them do).
    pub open spec fn used_slots_from(self, p: int, j: int) -> int
        decreases self.nvp - j,
    {
        if 0 <= j < self.nvp && self.vertex_slot(p, j) != NULL_INDEX {
            self.used_slots_from(p, j + 1)
        } else {
            j
        }
    }

    /// The number of vertices (and edges) of polygon `p`.
    pub open spec fn polygon_len(self, p: int) -> int {
        self.used_slots_from(p, 0)
    }

    /// The slot after `j` around polygon `p`, wrapping to the first.
    pub open spec fn next_slot(self, p: int, j: int) -> int {
        if j + 1 < self.polygon_len(p) {
            j + 1
        } else {
            0
        }
    }

    /// Polygon `p` has at least three vertices, all in the mesh, and its
    /// unused slots hold the null index.
    pub open spec fn polygon_ok(self, p: int) -> bool {
        &&& 3 <= self.polygon_len(p)
        &&& forall|j: int|
            0 <= j < self.polygon_len(p) ==> (#[trigger] self.vertex_slot(p, j) as int)
                < self.vertices.len()
        &&& forall|j: int|
            self.polygon_len(p) <= j < self.nvp ==> #[trigger] self.vertex_slot(p, j) == NULL_INDEX
                && self.neighbour_slot(p, j) == NULL_INDEX
    }

    /// The polygon across edge `j` of polygon `p` lists `p` across the same
    /// edge, walked the other way.
    pub open spec fn links_back(self, p: int, j: int) -> bool {
        let n = self.neighbour_slot(p, j) as int;
        &&& 0 <= n < self.polygons_len()
        &&& exists|k: int|
            0 <= k < self.polygon_len(n) && #[trigger] self.neighbour_slot(n, k) == p
                && self.vertex_slot(n, k) == self.vertex_slot(p, self.next_slot(p, j))
                && self.vertex_slot(n, self.next_slot(n, k)) == self.vertex_slot(p, j)
    }

    pub open spec fn sizes_ok(self) -> bool {
        &&& 1 <= self.nvp <= i32::MAX
        &&& self.polys.len() == 2 * self.nvp * self.polygons_len()
        &&& self.flags.len() == self.polygons_len()
        &&& self.areas.len() == self.polygons_len()
        &&& self.vertices.len() < MAX_MESH_VERTICES
        &&& i32::MIN <= self.border_size <= i32::MAX
    }

    pub open spec fn polygons_ok(self) -> bool {
        forall|p: int| 0 <= p < self.polygons_len() ==> #[trigger] self.polygon_ok(p)
    }

    pub open spec fn adjacency_ok(self) -> bool {
        forall|p: int, j: int|
            0 <= p < self.polygons_len() && 0 <= j < self.polygon_len(p)
                && self.neighbour_slot(p, j) < EXTERNAL_LINK ==> #[trigger] self.links_back(p, j)
    }

    pub open spec fn wf(self) -> bool {
        &&& self.sizes_ok()
        &&& self.polygons_ok()
        &&& self.adjacency_ok()
    }
}

/// Neighbour links are symmetric. When edge `j` of polygon `p` names a
/// polygon `n` (a value below `EXTERNAL_LINK`, so neither the null index nor a
/// tile-border marker), then `n` lists `p` among the neighbours of its own
/// edges, across the edge that joins the same two vertices the other way.
/// Every `PolyMesh` meets `wf`, as `PolyMesh::polygons_len` states, so this
/// holds of each mesh that `PolyMesh::from_parts` accepts.
pub proof fn lemma_neighbours_are_symmetric(mesh: PolyMeshView, p: int, j: int)
    requires
        mesh.wf(),
        0 <= p < mesh.polygons_len(),
        0 <= j < mesh.polygon_len(p),
        mesh.neighbour_slot(p, j) < EXTERNAL_LINK,
    ensures
        mesh.links_back(p, j),
        ({
            let n = mesh.neighbour_slot(p, j) as int;
            mesh.neighbour_slots(n).subrange(0, mesh.polygon_len(n)).contains(p as u16)
        }),
{
    assert(mesh.links_back(p, j));
    let n = mesh.neighbour_slot(p, j) as int;
    let k = choose|k: int|
        0 <= k < mesh.polygon_len(n) && #[trigger] mesh.neighbour_slot(n, k) == p
            && mesh.vertex_slot(n, k) == mesh.vertex_slot(p, mesh.next_slot(p, j))
            && mesh.vertex_slot(n, mesh.next_slot(n, k)) == mesh.vertex_slot(p, j);
    lemma_used_slots_bounds(mesh, n, 0);
    lemma_slot_index(mesh.nvp, mesh.polygons_len(), n, 2 * mesh.nvp);
    let s = mesh.neighbour_slots(n).subrange(0, mesh.polygon_len(n));
    assert(s[k] == mesh.neighbour_slot(n, k));
}

proof fn lemma_slot_index(nvp: int, npolys: int, p: int, j: int)
    requires
        1 <= nvp,
        0 <= p < npolys,
        0 <= j <= 2 * nvp,
    ensures
        0 <= 2 * nvp * p + j <= 2 * nvp * npolys,
        j < 2 * nvp ==> 2 * nvp * p + j < 2 * nvp * npolys,
{
    assert(0 <= 2 * nvp * p + j <= 2 * nvp * npolys) by (nonlinear_arith)
        requires
            1 <= nvp,
            0 <= p < npolys,
            0 <= j <= 2 * nvp,
    ;
    assert(j < 2 * nvp ==> 2 * nvp * p + j < 2 * nvp * npolys) by (nonlinear_arith)
        requires
            1 <= nvp,
            0 <= p < npolys,
            0 <= j <= 2 * nvp,
    ;
}

proof fn lemma_used_slots_bounds(v: PolyMeshView, p: int, j: int)
    requires
        0 <= j <= v.nvp,
    ensures
        j <= v.used_slots_from(p, j) <= v.nvp,
        forall|i: int| j <= i < v.used_slots_from(p, j) ==> #[trigger] v.vertex_slot(p, i) != NULL_INDEX,
    decreases v.nvp - j,
{
    if 0 <= j < v.nvp && v.vertex_slot(p, j) != NULL_INDEX {
        lemma_used_slots_bounds(v, p, j + 1);
    }
}

/// The number of vertices of polygon `p`: the slots before the first null
/// index.
fn used_slots(polys: &Vec<u16>, nvp: usize, p: usize, Ghost(v): Ghost<PolyMeshView>) -> (r: usize)
    requires
        v.polys == polys@,
        v.nvp == nvp,
        1 <= nvp,
        2 * nvp * p + 2 * nvp <= polys@.len(),
    ensures
        r == v.polygon_len(p as int),
        r <= nvp,
{
    proof {
        lemma_used_slots_bounds(v, p as int, 0);
        assert(0 <= 2 * nvp * p) by (nonlinear_arith)
            requires
                0 <= nvp,
                0 <= p,
        ;
    }
    proof {
        assert(polys@.len() == polys.len());
    }
    assert(2 * nvp <= polys@.len());
    let base = 2 * nvp * p;
    let mut j: usize = 0;
    while j < nvp && polys[base + j] != NULL_INDEX
        invariant
            v.polys == polys@,
            v.nvp == nvp,
            base == 2 * nvp * p,
            base + 2 * nvp <= polys@.len(),
            polys@.len() <= usize::MAX,
            j <= nvp,
            v.polygon_len(p as int) == v.used_slots_from(p as int, j as int),
        decreases nvp - j,
    {
        j = j + 1;
    }
    j
}

/// Tells whether polygon `p` is well formed.
fn polygon_is_well_formed(
    polys: &Vec<u16>,
    nvp: usize,
    p: usize,
    vertex_count: usize,
    Ghost(v): Ghost<PolyMeshView>,
) -> (r: bool)
    requires
        v.polys == polys@,
        v.nvp == nvp,
        v.vertices.len() == vertex_count,
        1 <= nvp,
        2 * nvp * p + 2 * nvp <= polys@.len(),
    ensures
        r == v.polygon_ok(p as int),
{
    let used = used_slots(polys, nvp, p, Ghost(v));
    if used < 3 {
        return false;
    }
    proof {
        assert(0 <= 2 * nvp * p) by (nonlinear_arith)
            requires
                0 <= nvp,
                0 <= p,
        ;
    }
    proof {
        assert(polys@.len() == polys.len());
    }
    let base = 2 * nvp * p;
    let mut j: usize = 0;
    while j < used
        invariant
            v.polys == polys@,
            v.nvp == nvp,
            v.vertices.len() == vertex_count,
            polys@.len() <= usize::MAX,
            base == 2 * nvp * p,
            base + 2 * nvp <= polys@.len(),
            used == v.polygon_len(p as int),
            used <= nvp,
            j <= used,
            forall|i: int| 0 <= i < j ==> (#[trigger] v.vertex_slot(p as int, i) as int) < vertex_count,
        decreases used - j,
    {
        if polys[base + j] as usize >= vertex_count {
            assert(v.vertex_slot(p as int, j as int) == polys@[base + j]);
            assert(!((v.vertex_slot(p as int, j as int) as int) < vertex_count));
            return false;
        }
        j = j + 1;
    }
    let mut j: usize = used;
    while j < nvp
        invariant
            v.polys == polys@,
            v.nvp == nvp,
            polys@.len() <= usize::MAX,
            base == 2 * nvp * p,
            base + 2 * nvp <= polys@.len(),
            used == v.polygon_len(p as int),
            used <= j <= nvp,
            3 <= used,
            forall|i: int| 0 <= i < used ==> (#[trigger] v.vertex_slot(p as int, i) as int) < vertex_count,
            forall|i: int|
                used <= i < j ==> #[trigger] v.vertex_slot(p as int, i) == NULL_INDEX
                    && v.neighbour_slot(p as int, i) == NULL_INDEX,
        decreases nvp - j,
    {
        if polys[base + j] != NULL_INDEX || polys[base + nvp + j] != NULL_INDEX {
            assert(v.vertex_slot(p as int, j as int) == polys@[base + j]);
            assert(v.neighbour_slot(p as int, j as int) == polys@[base + nvp + j]);
            return false;
        }
        j = j + 1;
    }
    true
}

/// The slot after `j` around a polygon of `used` vertices.
fn next_slot(j: usize, used: usize) -> (r: usize)
    requires
        j < used,
    ensures
        r == if j + 1 < used {
            j + 1
        } else {
            0
        },
{
    if j + 1 < used {
        j + 1
    } else {
        0
    }
}

/// Tells whether polygon `n` lists `p` across an edge that runs from `a` to
/// `b`.
fn has_link_to(
    polys: &Vec<u16>,
    nvp: usize,
    n: usize,
    p: usize,
    a: u16,
    b: u16,
    Ghost(v): Ghost<PolyMeshView>,
) -> (r: bool)
    requires
        v.polys == polys@,
        v.nvp == nvp,
        1 <= nvp,
        2 * nvp * n + 2 * nvp <= polys@.len(),
    ensures
        r == exists|k: int|
            0 <= k < v.polygon_len(n as int) && #[trigger] v.neighbour_slot(n as int, k) == p
                && v.vertex_slot(n as int, k) == a && v.vertex_slot(
                n as int,
                v.next_slot(n as int, k),
            ) == b,
{
    let used = used_slots(polys, nvp, n, Ghost(v));
    proof {
        assert(0 <= 2 * nvp * n) by (nonlinear_arith)
            requires
                0 <= nvp,
                0 <= n,
        ;
    }
    proof {
        assert(polys@.len() == polys.len());
    }
    let base = 2 * nvp * n;
    let mut k: usize = 0;
    while k < used
        invariant
            v.polys == polys@,
            v.nvp == nvp,
            polys@.len() <= usize::MAX,
            base == 2 * nvp * n,
            base + 2 * nvp <= polys@.len(),
            used == v.polygon_len(n as int),
            used <= nvp,
            k <= used,
            forall|i: int|
                0 <= i < k ==> !(#[trigger] v.neighbour_slot(n as int, i) == p && v.vertex_slot(
                    n as int,
                    i,
                ) == a && v.vertex_slot(n as int, v.next_slot(n as int, i)) == b),
        decreases used - k,
    {
        let nk = next_slot(k, used);
        assert(v.neighbour_slot(n as int, k as int) == polys@[base + nvp + k]);
        assert(v.vertex_slot(n as int, k as int) == polys@[base + k]);
        assert(v.vertex_slot(n as int, nk as int) == polys@[base + nk]);
        if polys[base + nvp + k] as usize == p && polys[base + k] == a && polys[base + nk] == b {
            return true;
        }
        k = k + 1;
    }
    false
}

/// Tells whether every edge of polygon `p` that names a neighbouring polygon
/// is named back by it.
fn polygon_links_back(
    polys: &Vec<u16>,
    nvp: usize,
    npolys: usize,
    p: usize,
    Ghost(v): Ghost<PolyMeshView>,
) -> (r: bool)
    requires
        v.polys == polys@,
        v.nvp == nvp,
        v.polygons_len() == npolys,
        1 <= nvp,
        p < npolys,
        polys@.len() == 2 * nvp * npolys,
    ensures
        r == forall|j: int|
            0 <= j < v.polygon_len(p as int) && v.neighbour_slot(p as int, j) < EXTERNAL_LINK
                ==> #[trigger] v.links_back(p as int, j),
{
    proof {
        lemma_slot_index(nvp as int, npolys as int, p as int, 2 * nvp);
        lemma_slot_index(nvp as int, npolys as int, p as int, 0);
    }
    let used = used_slots(polys, nvp, p, Ghost(v));
    proof {
        assert(polys@.len() == polys.len());
    }
    let base = 2 * nvp * p;
    let mut j: usize = 0;
    while j < used
        invariant
            v.polys == polys@,
            v.nvp == nvp,
            v.polygons_len() == npolys,
            1 <= nvp,
            p < npolys,
            polys@.len() == 2 * nvp * npolys,
            polys@.len() <= usize::MAX,
            base == 2 * nvp * p,
            base + 2 * nvp <= polys@.len(),
            used == v.polygon_len(p as int),
            used <= nvp,
            j <= used,
            forall|i: int|
                0 <= i < j && v.neighbour_slot(p as int, i) < EXTERNAL_LINK ==> #[trigger] v.links_back(
                    p as int,
                    i,
                ),
        decreases used - j,
    {
        let nb = polys[base + nvp + j];
        assert(v.neighbour_slot(p as int, j as int) == nb);
        if nb < EXTERNAL_LINK {
            if nb as usize >= npolys {
                assert(!v.links_back(p as int, j as int));
                return false;
            }
            let nj = next_slot(j, used);
            assert(v.vertex_slot(p as int, nj as int) == polys@[base + nj]);
            assert(v.vertex_slot(p as int, j as int) == polys@[base + j]);
            proof {
                lemma_slot_index(nvp as int, npolys as int, nb as int, 2 * nvp);
            }
            assert(nj == v.next_slot(p as int, j as int));
            if !has_link_to(polys, nvp, nb as usize, p, polys[base + nj], polys[base + j], Ghost(v)) {
                assert(!v.links_back(p as int, j as int));
                return false;
            }
        }
        j = j + 1;
    }
    true
}

/// A polygon mesh: quantised vertices in grid units and a fixed-width table
/// of convex polygons with their edge neighbours.
pub struct PolyMesh {
    vertices: Vec<Vec3<u16>>,
    polys: Vec<u16>,
    regions: Vec<u16>,
    flags: Vec<u16>,
    areas: Vec<u8>,
    max_vertices_per_polygon: i32,
    border_size: i32,
}

impl View for PolyMesh {
    type V = PolyMeshView;

    closed spec fn view(&self) -> PolyMeshView {
        PolyMeshView {
            vertices: self.vertices@,
            polys: self.polys@,
            regions: self.regions@,
            flags: self.flags@,
            areas: self.areas@,
            nvp: self.max_vertices_per_polygon as int,
            border_size: self.border_size as int,
        }
    }
}

impl PolyMesh {
    #[verifier::type_invariant]
    closed spec fn inv(&self) -> bool {
        self@.wf()
    }

    /// Builds a mesh from its tables. Fails unless the tables are well formed:
    /// sizes agree, each polygon lists at least three existing vertices before
    /// its null slots, and each edge that names a neighbouring polygon is named
    /// back by it across the same edge.
    pub fn from_parts(
        vertices: Vec<Vec3<u16>>,
        polys: Vec<u16>,
        regions: Vec<u16>,
        flags: Vec<u16>,
        areas: Vec<u8>,
        max_vertices_per_polygon: i32,
        border_size: i32,
    ) -> (r: Result<PolyMesh, ()>)
        ensures
            ({
                let v = PolyMeshView {
                    vertices: vertices@,
                    polys: polys@,
                    regions: regions@,
                    flags: flags@,
                    areas: areas@,
                    nvp: max_vertices_per_polygon as int,
                    border_size: border_size as int,
                };
                &&& r is Ok <==> v.wf()
                &&& r matches Ok(m) ==> m@ == v
            }),
    {
        let ghost v = PolyMeshView {
            vertices: vertices@,
            polys: polys@,
            regions: regions@,
            flags: flags@,
            areas: areas@,
            nvp: max_vertices_per_polygon as int,
            border_size: border_size as int,
        };
        if max_vertices_per_polygon < 1 {
            return Err(());
        }
        let nvp = max_vertices_per_polygon as usize;
        let npolys = regions.len();
        if flags.len() != npolys || areas.len() != npolys || vertices.len() >= MAX_MESH_VERTICES {
            return Err(());
        }
        let stride: u64 = 2 * nvp as u64;
        let len = polys.len() as u64;
        proof {
            lemma_fundamental_div_mod(len as int, stride as int);
            lemma_div_multiples_vanish(npolys as int, stride as int);
            lemma_mod_multiples_basic(npolys as int, stride as int);
            assert(stride * npolys == npolys * stride) by (nonlinear_arith);
        }
        if len % stride != 0 || len / stride != npolys as u64 {
            return Err(());
        }
        assert(polys@.len() == 2 * nvp * npolys);
        let mut p: usize = 0;
        while p < npolys
            invariant
                v == (PolyMeshView {
                    vertices: vertices@,
                    polys: polys@,
                    regions: regions@,
                    flags: flags@,
                    areas: areas@,
                    nvp: max_vertices_per_polygon as int,
                    border_size: border_size as int,
                }),
                v.nvp == nvp,
                v.polygons_len() == npolys,
                1 <= nvp,
                p <= npolys,
                polys@.len() == 2 * nvp * npolys,
                forall|i: int| 0 <= i < p ==> #[trigger] v.polygon_ok(i),
            decreases npolys - p,
        {
            proof {
                lemma_slot_index(nvp as int, npolys as int, p as int, 2 * nvp);
            }
            if !polygon_is_well_formed(&polys, nvp, p, vertices.len(), Ghost(v)) {
                assert(!v.polygons_ok());
                return Err(());
            }
            p = p + 1;
        }
        let mut p: usize = 0;
        while p < npolys
            invariant
                v == (PolyMeshView {
                    vertices: vertices@,
                    polys: polys@,
                    regions: regions@,
                    flags: flags@,
                    areas: areas@,
                    nvp: max_vertices_per_polygon as int,
                    border_size: border_size as int,
                }),
                v.nvp == nvp,
                v.polygons_len() == npolys,
                v.polygons_ok(),
                1 <= nvp,
                p <= npolys,
                polys@.len() == 2 * nvp * npolys,
                forall|i: int, j: int|
                    0 <= i < p && 0 <= j < v.polygon_len(i) && v.neighbour_slot(i, j) < EXTERNAL_LINK
                        ==> #[trigger] v.links_back(i, j),
            decreases npolys - p,
        {
            if !polygon_links_back(&polys, nvp, npolys, p, Ghost(v)) {
                assert(!v.adjacency_ok());
                return Err(());
            }
            p = p + 1;
        }
        Ok(PolyMesh {
            vertices,
            polys,
            regions,
            flags,
            areas,
            max_vertices_per_polygon,
            border_size,
        })
    }
}

impl PolyMesh {
    pub fn vertices_len(&self) -> (r: usize)
        ensures
            r == self@.vertices.len(),
    {
        self.vertices.len()
    }

    /// The vertex at `index`.
    pub fn vertex(&self, index: usize) -> (r: PolyMeshVertex<'_>)
        requires
            index < self@.vertices.len(),
        ensures
            r@ == (ElementView { mesh: self@, index: index as int }),
    {
        PolyMeshVertex { poly_mesh: self, index }
    }

    /// Every vertex, in order.
    pub fn vertices_iter(&self) -> (r: Vec<PolyMeshVertex<'_>>)
        ensures
            r@.len() == self@.vertices.len(),
            forall|i: int|
                0 <= i < r@.len() ==> (#[trigger] r@[i])@ == (ElementView { mesh: self@, index: i }),
    {
        let n = self.vertices.len();
        let mut out: Vec<PolyMeshVertex<'_>> = Vec::new();
        let mut i: usize = 0;
        while i < n
            invariant
                n == self@.vertices.len(),
                i <= n,
                out@.len() == i,
                forall|k: int|
                    0 <= k < i ==> (#[trigger] out@[k])@ == (ElementView { mesh: self@, index: k }),
            decreases n - i,
        {
            out.push(self.vertex(i));
            i = i + 1;
        }
        out
    }

    pub fn polygons_len(&self) -> (r: usize)
        ensures
            r == self@.polygons_len(),
            self@.wf(),
    {
        proof {
            use_type_invariant(self);
        }
        self.regions.len()
    }

    /// The polygon at `index`.
    pub fn polygon(&self, index: usize) -> (r: PolyMeshPolygon<'_>)
        requires
            index < self@.polygons_len(),
        ensures
            r@ == (ElementView { mesh: self@, index: index as int }),
    {
        PolyMeshPolygon { poly_mesh: self, index }
    }

    /// Every polygon, in order.
    pub fn polygons_iter(&self) -> (r: Vec<PolyMeshPolygon<'_>>)
        ensures
            r@.len() == self@.polygons_len(),
            forall|i: int|
                0 <= i < r@.len() ==> (#[trigger] r@[i])@ == (ElementView { mesh: self@, index: i }),
    {
        let n = self.regions.len();
        let mut out: Vec<PolyMeshPolygon<'_>> = Vec::new();
        let mut i: usize = 0;
        while i < n
            invariant
                n == self@.polygons_len(),
                i <= n,
                out@.len() == i,
                forall|k: int|
                    0 <= k < i ==> (#[trigger] out@[k])@ == (ElementView { mesh: self@, index: k }),
            decreases n - i,
        {
            out.push(self.polygon(i));
            i = i + 1;
        }
        out
    }

    pub fn max_vertices_per_polygon(&self) -> (r: i32)
        ensures
            r == self@.nvp,
    {
        self.max_vertices_per_polygon
    }

    pub fn border_size(&self) -> (r: i32)
        ensures
            r == self@.border_size,
    {
        self.border_size
    }
}

/// An element of a mesh (a vertex or a polygon), named by its index.
pub struct ElementView {
    pub mesh: PolyMeshView,
    pub index: int,
}

/// A vertex of a polygon mesh, borrowed from it.
pub struct PolyMeshVertex<'a> {
    poly_mesh: &'a PolyMesh,
    index: usize,
}

impl<'a> View for PolyMeshVertex<'a> {
    type V = ElementView;

    closed spec fn view(&self) -> ElementView {
        ElementView { mesh: self.poly_mesh@, index: self.index as int }
    }
}

impl<'a> PolyMeshVertex<'a> {
    #[verifier::type_invariant]
    closed spec fn inv(&self) -> bool {
        self.index < self.poly_mesh@.vertices.len()
    }

    /// The vertex in grid units.
    pub fn as_u16(&self) -> (r: Vec3<u16>)
        ensures
            r == self@.mesh.vertices[self@.index],
    {
        proof {
            use_type_invariant(self);
        }
        self.poly_mesh.vertices[self.index]
    }
}

/// A polygon of a polygon mesh, borrowed from it.
pub struct PolyMeshPolygon<'a> {
    poly_mesh: &'a PolyMesh,
    index: usize,
}

impl<'a> View for PolyMeshPolygon<'a> {
    type V = ElementView;

    closed spec fn view(&self) -> ElementView {
        ElementView { mesh: self.poly_mesh@, index: self.index as int }
    }
}

impl<'a> PolyMeshPolygon<'a> {
    #[verifier::type_invariant]
    closed spec fn inv(&self) -> bool {
        self.index < self.poly_mesh@.polygons_len()
    }

    /// All vertex slots of the polygon, `max_vertices_per_polygon` of them;
    /// those past the polygon's last vertex hold `NULL_INDEX`.
    pub fn vertices(&self) -> (r: &'a [u16])
        ensures
            r@ == self@.mesh.vertex_slots(self@.index),
    {
        proof {
            use_type_invariant(self);
            use_type_invariant(self.poly_mesh);
            lemma_slot_index(self@.mesh.nvp, self@.mesh.polygons_len(), self@.index, 2 * self@.mesh.nvp);
        }
        let nvp = self.poly_mesh.max_vertices_per_polygon as usize;
        assert(2 * nvp * self.index + 2 * nvp <= self.poly_mesh.polys.len());
        let start = 2 * nvp * self.index;
        vstd::slice::slice_subrange(self.poly_mesh.polys.as_slice(), start, start + nvp)
    }

    /// All neighbour slots of the polygon, one per vertex slot: slot `j` names
    /// the polygon across the edge that starts at vertex slot `j`.
    pub fn neighbours(&self) -> (r: &'a [u16])
        ensures
            r@ == self@.mesh.neighbour_slots(self@.index),
    {
        proof {
            use_type_invariant(self);
            use_type_invariant(self.poly_mesh);
            lemma_slot_index(self@.mesh.nvp, self@.mesh.polygons_len(), self@.index, 2 * self@.mesh.nvp);
        }
        let nvp = self.poly_mesh.max_vertices_per_polygon as usize;
        assert(2 * nvp * self.index + 2 * nvp <= self.poly_mesh.polys.len());
        let start = 2 * nvp * self.index;
        vstd::slice::slice_subrange(self.poly_mesh.polys.as_slice(), start + nvp, start + 2 * nvp)
    }

    /// The vertex slots before the first `NULL_INDEX`: the polygon's vertices.
    pub fn valid_vertices(&self) -> (r: &'a [u16])
        ensures
            r@ == self@.mesh.vertex_slots(self@.index).subrange(0, self@.mesh.polygon_len(self@.index)),
    {
        proof {
            use_type_invariant(self);
            use_type_invariant(self.poly_mesh);
            lemma_slot_index(self@.mesh.nvp, self@.mesh.polygons_len(), self@.index, 2 * self@.mesh.nvp);
        }
        let slots = self.vertices();
        let used = used_slots(&self.poly_mesh.polys, self.poly_mesh.max_vertices_per_polygon as usize, self.index, Ghost(self@.mesh));
        vstd::slice::slice_subrange(slots, 0, used)
    }

    /// The neighbour slots of the polygon's edges, one per vertex.
    pub fn valid_neighbours(&self) -> (r: &'a [u16])
        ensures
            r@ == self@.mesh.neighbour_slots(self@.index).subrange(0, self@.mesh.polygon_len(self@.index)),
    {
        proof {
            use_type_invariant(self);
            use_type_invariant(self.poly_mesh);
            lemma_slot_index(self@.mesh.nvp, self@.mesh.polygons_len(), self@.index, 2 * self@.mesh.nvp);
        }
        let slots = self.neighbours();
        let used = used_slots(&self.poly_mesh.polys, self.poly_mesh.max_vertices_per_polygon as usize, self.index, Ghost(self@.mesh));
        vstd::slice::slice_subrange(slots, 0, used)
    }

    pub fn region_id(&self) -> (r: u16)
        ensures
            r == self@.mesh.regions[self@.index],
    {
        proof {
            use_type_invariant(self);
        }
        self.poly_mesh.regions[self.index]
    }

    pub fn flags(&self) -> (r: u16)
        ensures
            r == self@.mesh.flags[self@.index],
    {
        proof {
            use_type_invariant(self);
            use_type_invariant(self.poly_mesh);
        }
        self.poly_mesh.flags[self.index]
    }

    pub fn area_id(&self) -> (r: u8)
        ensures
            r == self@.mesh.areas[self@.index],
    {
        proof {
            use_type_invariant(self);
            use_type_invariant(self.poly_mesh);
        }
        self.poly_mesh.areas[self.index]
    }
}

} // verus!
