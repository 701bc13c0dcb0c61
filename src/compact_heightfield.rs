use vstd::prelude::*;

use std::marker::PhantomData;
use std::ops::Range;

use crate::heightfield::grid_cells;

verus! {

/// The connection code of a direction with no neighbouring span.
pub const NOT_CONNECTED: u32 = 0x3f;

/// Connection codes take six bits per direction, four directions in all.
pub const CONNECTION_LIMIT: u32 = 0x100_0000;

/// The first span and the number of spans of one grid column.
#[derive(Debug, PartialEq, Eq, Clone, Copy)]
pub struct CompactCell {
    pub index: u32,
    pub count: u8,
}

/// One open span: its floor, its height above the floor, and the packed
/// connection codes of its four sides.
#[derive(Debug, PartialEq, Eq, Clone, Copy)]
pub struct CompactSpanData {
    pub y: u16,
    pub h: u8,
    pub con: u32,
}

/// The four sides of a grid cell.
#[derive(Debug, PartialEq, Eq, Clone, Copy)]
pub enum Direction {
    NegX,
    PosZ,
    PosX,
    NegZ,
}

/// The place of a direction's six bits in a connection code.
pub open spec fn direction_index(d: Direction) -> int {
    match d {
        Direction::NegX => 0,
        Direction::PosZ => 1,
        Direction::PosX => 2,
        Direction::NegZ => 3,
    }
}

/// The flag that marks the regions of the non-navigable border; such ids are
/// not renumbered with the others.
pub const BORDER_REGION: u16 = 0x8000;

/// A region id is zero (no region), a border region, or one of the numbered
/// regions `1..=max_regions`.
pub open spec fn region_ok(id: u16, max_regions: int) -> bool {
    id >= BORDER_REGION || id <= max_regions
}

/// Tells whether every id of `regions` is allowed by `region_ok`.
fn regions_are_numbered(regions: &Vec<u16>, max_regions: u16) -> (r: bool)
    ensures
        r == forall|i: int| 0 <= i < regions@.len() ==> region_ok(#[trigger] regions@[i], max_regions as int),
{
    let mut i: usize = 0;
    while i < regions.len()
        invariant
            i <= regions@.len(),
            forall|k: int| 0 <= k < i ==> region_ok(#[trigger] regions@[k], max_regions as int),
        decreases regions@.len() - i,
    {
        let id = regions[i];
        if id < BORDER_REGION && id > max_regions {
            assert(!region_ok(regions@[i as int], max_regions as int));
            return false;
        }
        i = i + 1;
    }
    true
}

/// The number of spans in the cells before cell `i`.
pub open spec fn spans_before(cells: Seq<CompactCell>, i: int) -> int
    decreases i,
{
    if i <= 0 {
        0
    } else {
        spans_before(cells, i - 1) + cells[i - 1].count
    }
}

/// The step along x towards side `k` (0: -x, 1: +z, 2: +x, 3: -z).
pub open spec fn direction_dx(k: int) -> int {
    if k == 0 {
        -1
    } else if k == 2 {
        1
    } else {
        0
    }
}

/// The step along z towards side `k`.
pub open spec fn direction_dz(k: int) -> int {
    if k == 1 {
        1
    } else if k == 3 {
        -1
    } else {
        0
    }
}

/// The six-bit field number `k` of a packed connection code.
pub open spec fn connection_field(con: u32, k: int) -> int {
    let scale: int = if k == 0 {
        1
    } else if k == 1 {
        64
    } else if k == 2 {
        4096
    } else {
        262144
    };
    (con as int / scale) % 64
}

/// The state of a compact heightfield that has no regions yet: its areas may
/// still be edited.
pub struct NoRegions;

/// The state of a compact heightfield whose regions are built: it is only
/// read from then on.
pub struct HasRegions;

/// The two states of a compact heightfield.
pub trait CompactHeightfieldState {}

impl CompactHeightfieldState for NoRegions {}

impl CompactHeightfieldState for HasRegions {}

/// The content of a compact heightfield: a `width` by `height` grid of
/// cells, each naming a run of `spans`, with one area id and one region id
/// per span.
pub struct CompactHeightfieldView {
    pub width: int,
    pub height: int,
    pub walkable_height: int,
    pub walkable_climb: int,
    pub border_size: int,
    pub max_distance: int,
    pub max_regions: int,
    pub cells: Seq<CompactCell>,
    pub spans: Seq<CompactSpanData>,
    pub areas: Seq<u8>,
    pub regions: Seq<u16>,
}

impl CompactHeightfieldView {
    pub open spec fn cell_ok(self, c: CompactCell) -> bool {
        c.index + c.count <= self.spans.len()
    }

    /// One past the last span of cell `i`.
    pub open spec fn cell_end(self, i: int) -> int {
        self.cells[i].index + self.cells[i].count
    }

    /// The non-empty cells, in order, split the spans into consecutive runs.
    /// An empty cell holds no span, whatever its index.
    pub open spec fn cells_partition_spans(self) -> bool {
        &&& forall|i: int|
            0 <= i < self.cells.len() && (#[trigger] self.cells[i]).count > 0 ==> self.cells[i].index
                == spans_before(self.cells, i)
        &&& spans_before(self.cells, self.cells.len() as int) == self.spans.len()
    }

    /// Span `s` belongs to cell `c`.
    pub open spec fn in_cell(self, c: int, s: int) -> bool {
        self.cells[c].index <= s < self.cell_end(c)
    }

    /// Side `k` of span `s`, over cell `(x, z)`, is either unconnected, or
    /// names a span of the neighbouring column on that side, which lies in the
    /// grid.
    pub open spec fn connection_ok(self, x: int, z: int, s: int, k: int) -> bool {
        let code = connection_field(self.spans[s].con, k);
        let nx = x + direction_dx(k);
        let nz = z + direction_dz(k);
        code == NOT_CONNECTED || (0 <= nx < self.width && 0 <= nz < self.height && code
            < self.cells[nx + nz * self.width].count)
    }

    pub open spec fn connections_ok(self) -> bool {
        forall|x: int, z: int, s: int, k: int|
            0 <= x < self.width && 0 <= z < self.height && 0 <= k < 4 && self.in_cell(
                x + z * self.width,
                s,
            ) ==> #[trigger] self.connection_ok(x, z, s, k)
    }

    pub open spec fn wf(self) -> bool {
        &&& 0 < self.width <= i32::MAX
        &&& 0 < self.height <= i32::MAX
        &&& self.cells.len() == self.width * self.height
        &&& self.areas.len() == self.spans.len()
        &&& self.regions.len() == self.spans.len()
        &&& forall|i: int| 0 <= i < self.regions.len() ==> region_ok(#[trigger] self.regions[i], self.max_regions)
        &&& forall|i: int| 0 <= i < self.cells.len() ==> self.cell_ok(#[trigger] self.cells[i])
        &&& forall|i: int| 0 <= i < self.spans.len() ==> (#[trigger] self.spans[i]).con < CONNECTION_LIMIT
        &&& self.cells_partition_spans()
        &&& self.connections_ok()
    }
}

/// The six-bit field number `k` of `con`.
fn connection_code(con: u32, k: u32) -> (r: u32)
    requires
        k < 4,
    ensures
        r == connection_field(con, k as int),
{
    if k == 0 {
        assert(con & 0x3f == con % 64) by (bit_vector);
        con & 0x3f
    } else if k == 1 {
        assert((con >> 6) & 0x3f == (con / 64) % 64) by (bit_vector);
        (con >> 6) & 0x3f
    } else if k == 2 {
        assert((con >> 12) & 0x3f == (con / 4096) % 64) by (bit_vector);
        (con >> 12) & 0x3f
    } else {
        assert((con >> 18) & 0x3f == (con / 262144) % 64) by (bit_vector);
        (con >> 18) & 0x3f
    }
}

proof fn lemma_grid_index(x: int, z: int, w: int, h: int)
    requires
        0 <= x < w,
        0 <= z < h,
    ensures
        0 <= z * w,
        0 <= x + z * w < w * h,
{
    assert(0 <= z * w) by (nonlinear_arith)
        requires
            0 <= z,
            0 <= x < w,
    ;
    assert(x + z * w < w * h) by (nonlinear_arith)
        requires
            0 <= x < w,
            0 <= z < h,
    ;
}

proof fn lemma_same_layout(a: CompactHeightfieldView, b: CompactHeightfieldView)
    requires
        a.width == b.width,
        a.height == b.height,
        a.cells == b.cells,
        a.spans == b.spans,
    ensures
        a.connections_ok() ==> b.connections_ok(),
        a.cells_partition_spans() ==> b.cells_partition_spans(),
{
    if a.connections_ok() {
        assert forall|x: int, z: int, s: int, k: int|
            0 <= x < b.width && 0 <= z < b.height && 0 <= k < 4 && b.in_cell(x + z * b.width, s)
                implies #[trigger] b.connection_ok(x, z, s, k) by {
            assert(a.in_cell(x + z * a.width, s));
            assert(a.connection_ok(x, z, s, k));
        }
    }
    if a.cells_partition_spans() {
        assert forall|i: int|
            0 <= i < b.cells.len() && (#[trigger] b.cells[i]).count > 0 implies b.cells[i].index
                == spans_before(b.cells, i) by {
            assert(a.cells[i] == b.cells[i]);
        }
    }
}

/// Tells whether every cell stays within the spans and the non-empty cells,
/// in order, split the spans into consecutive runs.
fn cells_are_consecutive(cells: &Vec<CompactCell>, span_count: usize, Ghost(v): Ghost<
    CompactHeightfieldView,
>) -> (r: bool)
    requires
        v.cells == cells@,
        v.spans.len() == span_count,
    ensures
        r == ((forall|i: int| 0 <= i < v.cells.len() ==> v.cell_ok(#[trigger] v.cells[i]))
            && v.cells_partition_spans()),
{
    let mut before: u64 = 0;
    let mut i: usize = 0;
    while i < cells.len()
        invariant
            v.cells == cells@,
            v.spans.len() == span_count,
            i <= cells@.len(),
            before == spans_before(v.cells, i as int),
            before <= span_count,
            forall|k: int| 0 <= k < i ==> v.cell_ok(#[trigger] v.cells[k]),
            forall|k: int|
                0 <= k < i && (#[trigger] v.cells[k]).count > 0 ==> v.cells[k].index == spans_before(
                    v.cells,
                    k,
                ),
        decreases cells@.len() - i,
    {
        let c = cells[i];
        if c.index as u64 + c.count as u64 > span_count as u64 {
            assert(!v.cell_ok(v.cells[i as int]));
            return false;
        }
        if c.count > 0 && c.index as u64 != before {
            assert(v.cells[i as int].count > 0);
            return false;
        }
        assert(spans_before(v.cells, i + 1) == spans_before(v.cells, i as int) + v.cells[i as int].count);
        before = before + c.count as u64;
        i = i + 1;
    }
    before == span_count as u64
}

/// Tells whether every side of every span is either unconnected or names a
/// span of the neighbouring column, inside the grid.
fn connections_are_valid(
    width: i32,
    height: i32,
    cells: &Vec<CompactCell>,
    spans: &Vec<CompactSpanData>,
    Ghost(v): Ghost<CompactHeightfieldView>,
) -> (r: bool)
    requires
        v.width == width,
        v.height == height,
        v.cells == cells@,
        v.spans == spans@,
        0 < width,
        0 < height,
        cells@.len() == width * height,
        forall|i: int| 0 <= i < v.cells.len() ==> v.cell_ok(#[trigger] v.cells[i]),
    ensures
        r == v.connections_ok(),
{
    let mut z: i32 = 0;
    while z < height
        invariant
            v.width == width,
            v.height == height,
            v.cells == cells@,
            v.spans == spans@,
            0 < width,
            0 < height,
            cells@.len() == width * height,
            forall|i: int| 0 <= i < v.cells.len() ==> v.cell_ok(#[trigger] v.cells[i]),
            0 <= z <= height,
            forall|x2: int, z2: int, s2: int, k2: int|
                0 <= x2 < width && 0 <= z2 < z && 0 <= k2 < 4 && v.in_cell(x2 + z2 * width, s2)
                    ==> #[trigger] v.connection_ok(x2, z2, s2, k2),
        decreases height - z,
    {
        let mut x: i32 = 0;
        while x < width
            invariant
                v.width == width,
                v.height == height,
                v.cells == cells@,
                v.spans == spans@,
                0 < width,
                0 < height,
                cells@.len() == width * height,
                forall|i: int| 0 <= i < v.cells.len() ==> v.cell_ok(#[trigger] v.cells[i]),
                0 <= z < height,
                0 <= x <= width,
                forall|x2: int, z2: int, s2: int, k2: int|
                    0 <= x2 < width && 0 <= z2 < height && (z2 < z || (z2 == z && x2 < x)) && 0
                        <= k2 < 4 && v.in_cell(x2 + z2 * width, s2) ==> #[trigger] v.connection_ok(
                        x2,
                        z2,
                        s2,
                        k2,
                    ),
            decreases width - x,
        {
            proof {
                lemma_grid_index(x as int, z as int, width as int, height as int);
                assert(cells@.len() == cells.len());
            }
            let i = x as usize + z as usize * width as usize;
            let c = cells[i];
            assert(v.cell_ok(v.cells[i as int]));
            assert(spans@.len() == spans.len());
            let end = c.index as usize + c.count as usize;
            let mut s = c.index as usize;
            while s < end
                invariant
                    v.width == width,
                    v.height == height,
                    v.cells == cells@,
                    v.spans == spans@,
                    0 < width,
                    0 < height,
                    cells@.len() == width * height,
                    0 <= z < height,
                    0 <= x < width,
                    i == x + z * width,
                    c == v.cells[i as int],
                    end == v.cell_end(i as int),
                    end <= spans@.len(),
                    c.index <= s <= end,
                    forall|x2: int, z2: int, s2: int, k2: int|
                        0 <= x2 < width && 0 <= z2 < height && (z2 < z || (z2 == z && x2 < x)) && 0
                            <= k2 < 4 && v.in_cell(x2 + z2 * width, s2) ==> #[trigger] v.connection_ok(
                            x2,
                            z2,
                            s2,
                            k2,
                        ),
                    forall|s2: int, k2: int|
                        c.index <= s2 < s && 0 <= k2 < 4 ==> #[trigger] v.connection_ok(
                            x as int,
                            z as int,
                            s2,
                            k2,
                        ),
                decreases end - s,
            {
                let con = spans[s].con;
                let mut k: u32 = 0;
                while k < 4
                    invariant
                        v.width == width,
                        v.height == height,
                        v.cells == cells@,
                        v.spans == spans@,
                        0 < width,
                        0 < height,
                        cells@.len() == width * height,
                        0 <= z < height,
                        0 <= x < width,
                        c.index <= s < end,
                        end <= spans@.len(),
                        con == spans@[s as int].con,
                        i == x + z * width,
                        c == v.cells[i as int],
                        end == v.cell_end(i as int),
                        k <= 4,
                        forall|k2: int| 0 <= k2 < k ==> #[trigger] v.connection_ok(x as int, z as int, s as int, k2),
                    decreases 4 - k,
                {
                    let code = connection_code(con, k);
                    if code != NOT_CONNECTED {
                        let nx: i64 = x as i64 + if k == 0 {
                            -1
                        } else if k == 2 {
                            1
                        } else {
                            0
                        };
                        let nz: i64 = z as i64 + if k == 1 {
                            1
                        } else if k == 3 {
                            -1
                        } else {
                            0
                        };
                        assert(nx == x + direction_dx(k as int) && nz == z + direction_dz(k as int));
                        if nx < 0 || nx >= width as i64 || nz < 0 || nz >= height as i64 {
                            assert(!v.connection_ok(x as int, z as int, s as int, k as int));
                            assert(v.in_cell(x + z * width, s as int));
                            assert(!v.connections_ok());
                            return false;
                        }
                        proof {
                            lemma_grid_index(nx as int, nz as int, width as int, height as int);
                            assert(cells@.len() == cells.len());
                        }
                        let ni = nx as usize + nz as usize * width as usize;
                        if code >= cells[ni].count as u32 {
                            assert(!v.connection_ok(x as int, z as int, s as int, k as int));
                            assert(v.in_cell(x + z * width, s as int));
                            assert(!v.connections_ok());
                            return false;
                        }
                    }
                    k = k + 1;
                }
                s = s + 1;
            }
            x = x + 1;
        }
        z = z + 1;
    }
    true
}

/// The open space above a heightfield's walkable spans, with the connections
/// between neighbouring spans. `S` tells whether regions were built.
pub struct CompactHeightfield<S: CompactHeightfieldState> {
    width: i32,
    height: i32,
    walkable_height: i32,
    walkable_climb: i32,
    border_size: i32,
    max_distance: u16,
    max_regions: u16,
    cells: Vec<CompactCell>,
    spans: Vec<CompactSpanData>,
    areas: Vec<u8>,
    regions: Vec<u16>,
    state: PhantomData<S>,
}

impl<S: CompactHeightfieldState> View for CompactHeightfield<S> {
    type V = CompactHeightfieldView;

    closed spec fn view(&self) -> CompactHeightfieldView {
        CompactHeightfieldView {
            width: self.width as int,
            height: self.height as int,
            walkable_height: self.walkable_height as int,
            walkable_climb: self.walkable_climb as int,
            border_size: self.border_size as int,
            max_distance: self.max_distance as int,
            max_regions: self.max_regions as int,
            cells: self.cells@,
            spans: self.spans@,
            areas: self.areas@,
            regions: self.regions@,
        }
    }
}

impl<S: CompactHeightfieldState> CompactHeightfield<S> {
    #[verifier::type_invariant]
    closed spec fn inv(&self) -> bool {
        self@.wf()
    }

    pub fn grid_width(&self) -> (r: i32)
        ensures
            r == self@.width,
    {
        self.width
    }

    pub fn grid_height(&self) -> (r: i32)
        ensures
            r == self@.height,
    {
        self.height
    }

    pub fn walkable_height(&self) -> (r: i32)
        ensures
            r == self@.walkable_height,
    {
        self.walkable_height
    }

    pub fn walkable_climb(&self) -> (r: i32)
        ensures
            r == self@.walkable_climb,
    {
        self.walkable_climb
    }

    /// The spans of the column over cell `index` (cells run x first, then
    /// z), as a range of span indices.
    pub fn cell(&self, index: usize) -> (r: Range<usize>)
        requires
            index < self@.cells.len(),
        ensures
            r.start == self@.cells[index as int].index,
            r.end == self@.cells[index as int].index + self@.cells[index as int].count,
    {
        proof {
            use_type_invariant(self);
            assert(self@.cell_ok(self@.cells[index as int]));
            assert(self.spans@.len() == self.spans.len());
        }
        let c = self.cells[index];
        let start = c.index as usize;
        start..start + c.count as usize
    }

    /// The span range of every cell, cell by cell.
    pub fn cells_iter(&self) -> (r: Vec<Range<usize>>)
        ensures
            r@.len() == self@.cells.len(),
            forall|i: int|
                0 <= i < r@.len() ==> (#[trigger] r@[i]).start == self@.cells[i].index && r@[i].end
                    == self@.cells[i].index + self@.cells[i].count,
    {
        let n = self.cells.len();
        let mut out: Vec<Range<usize>> = Vec::new();
        let mut i: usize = 0;
        while i < n
            invariant
                n == self@.cells.len(),
                i <= n,
                out@.len() == i,
                forall|k: int|
                    0 <= k < i ==> (#[trigger] out@[k]).start == self@.cells[k].index && out@[k].end
                        == self@.cells[k].index + self@.cells[k].count,
            decreases n - i,
        {
            out.push(self.cell(i));
            i = i + 1;
        }
        out
    }

    pub fn spans_len(&self) -> (r: usize)
        ensures
            r == self@.spans.len(),
            self@.wf(),
    {
        proof {
            use_type_invariant(self);
        }
        self.spans.len()
    }

    /// Every span, in storage order.
    pub fn spans_iter(&self) -> (r: Vec<CompactSpan<'_, S>>)
        ensures
            r@.len() == self@.spans.len(),
            forall|i: int|
                0 <= i < r@.len() ==> (#[trigger] r@[i])@ == (CompactSpanView {
                    field: self@,
                    index: i,
                }),
    {
        let n = self.spans.len();
        let mut out: Vec<CompactSpan<'_, S>> = Vec::new();
        let mut i: usize = 0;
        while i < n
            invariant
                n == self@.spans.len(),
                i <= n,
                out@.len() == i,
                forall|k: int|
                    0 <= k < i ==> (#[trigger] out@[k])@ == (CompactSpanView {
                        field: self@,
                        index: k,
                    }),
            decreases n - i,
        {
            out.push(CompactSpan { compact_heightfield: self, index: i });
            i = i + 1;
        }
        out
    }

    /// The area id of each span, in storage order.
    pub fn span_areas(&self) -> (r: &[u8])
        ensures
            r@ == self@.areas,
    {
        self.areas.as_slice()
    }
}

impl CompactHeightfield<NoRegions> {
    /// Builds a compact heightfield, without regions, from its cell and span
    /// tables. Fails when the grid is empty, the tables disagree in size, the
    /// cells do not split the spans into consecutive runs, a connection code
    /// does not fit in 24 bits, or a side names a column outside the grid or a
    /// span its neighbouring column does not have.
    pub fn from_parts(
        width: i32,
        height: i32,
        walkable_height: i32,
        walkable_climb: i32,
        cells: Vec<CompactCell>,
        spans: Vec<CompactSpanData>,
        areas: Vec<u8>,
    ) -> (r: Result<Self, ()>)
        ensures
            ({
                let v = CompactHeightfieldView {
                    width: width as int,
                    height: height as int,
                    walkable_height: walkable_height as int,
                    walkable_climb: walkable_climb as int,
                    border_size: 0,
                    max_distance: 0,
                    max_regions: 0,
                    cells: cells@,
                    spans: spans@,
                    areas: areas@,
                    regions: Seq::new(spans@.len(), |i: int| 0u16),
                };
                &&& r is Ok <==> v.wf()
                &&& r matches Ok(c) ==> c@ == v
            }),
    {
        if width <= 0 || height <= 0 {
            return Err(());
        }
        if cells.len() as u64 != grid_cells(width, height) || areas.len() != spans.len() {
            return Err(());
        }
        let n = spans.len();
        let ghost v = CompactHeightfieldView {
            width: width as int,
            height: height as int,
            walkable_height: walkable_height as int,
            walkable_climb: walkable_climb as int,
            border_size: 0,
            max_distance: 0,
            max_regions: 0,
            cells: cells@,
            spans: spans@,
            areas: areas@,
            regions: Seq::new(spans@.len(), |i: int| 0u16),
        };
        if !cells_are_consecutive(&cells, n, Ghost(v)) {
            return Err(());
        }
        if !connections_are_valid(width, height, &cells, &spans, Ghost(v)) {
            return Err(());
        }
        let mut regions: Vec<u16> = Vec::new();
        let mut i: usize = 0;
        while i < n
            invariant
                i <= n,
                n == spans@.len(),
                regions@ == Seq::new(i as nat, |k: int| 0u16),
                forall|k: int| 0 <= k < i ==> (#[trigger] spans@[k]).con < CONNECTION_LIMIT,
            decreases n - i,
        {
            if spans[i].con >= CONNECTION_LIMIT {
                return Err(());
            }
            regions.push(0);
            i = i + 1;
            assert(regions@ =~= Seq::new(i as nat, |k: int| 0u16));
        }
        Ok(CompactHeightfield {
            width,
            height,
            walkable_height,
            walkable_climb,
            border_size: 0,
            max_distance: 0,
            max_regions: 0,
            cells,
            spans,
            areas,
            regions,
            state: PhantomData,
        })
    }

    /// Attaches the outcome of region building: a region id per span, the
    /// border size, the largest distance to a border and the number of
    /// regions. This ends area editing for good. Fails, keeping nothing, when
    /// there is not exactly one region id per span, or an id without the
    /// border flag is above `max_regions`.
    pub fn into_regions(
        self,
        border_size: i32,
        max_distance: u16,
        max_regions: u16,
        regions: Vec<u16>,
    ) -> (r: Result<CompactHeightfield<HasRegions>, ()>)
        ensures
            r is Ok <==> regions@.len() == self@.spans.len() && forall|i: int|
                0 <= i < regions@.len() ==> region_ok(#[trigger] regions@[i], max_regions as int),
            r matches Ok(c) ==> c@ == (CompactHeightfieldView {
                border_size: border_size as int,
                max_distance: max_distance as int,
                max_regions: max_regions as int,
                regions: regions@,
                ..self@
            }),
    {
        proof {
            use_type_invariant(&self);
            lemma_same_layout(self@, CompactHeightfieldView {
                border_size: border_size as int,
                max_distance: max_distance as int,
                max_regions: max_regions as int,
                regions: regions@,
                ..self@
            });
        }
        if regions.len() != self.spans.len() || !regions_are_numbered(&regions, max_regions) {
            return Err(());
        }
        Ok(CompactHeightfield {
            width: self.width,
            height: self.height,
            walkable_height: self.walkable_height,
            walkable_climb: self.walkable_climb,
            border_size,
            max_distance,
            max_regions,
            cells: self.cells,
            spans: self.spans,
            areas: self.areas,
            regions,
            state: PhantomData,
        })
    }
}

impl CompactHeightfield<HasRegions> {
    /// The width, in cells, of the margin that regions leave out.
    pub fn border_size(&self) -> (r: i32)
        ensures
            r == self@.border_size,
    {
        self.border_size
    }

    /// The number of region ids in use, the null region included.
    pub fn max_region_id(&self) -> (r: u16)
        ensures
            r == self@.max_regions,
    {
        self.max_regions
    }

    /// The largest distance from any span to a border.
    pub fn max_distance(&self) -> (r: u16)
        ensures
            r == self@.max_distance,
    {
        self.max_distance
    }
}

/// A span of a compact heightfield, named by its index.
pub struct CompactSpanView {
    pub field: CompactHeightfieldView,
    pub index: int,
}

impl CompactSpanView {
    pub open spec fn span(self) -> CompactSpanData {
        self.field.spans[self.index]
    }
}

/// A span of a compact heightfield, borrowed from it.
pub struct CompactSpan<'a, S: CompactHeightfieldState> {
    compact_heightfield: &'a CompactHeightfield<S>,
    index: usize,
}

impl<'a, S: CompactHeightfieldState> View for CompactSpan<'a, S> {
    type V = CompactSpanView;

    closed spec fn view(&self) -> CompactSpanView {
        CompactSpanView { field: self.compact_heightfield@, index: self.index as int }
    }
}

impl<'a, S: CompactHeightfieldState> CompactSpan<'a, S> {
    #[verifier::type_invariant]
    closed spec fn inv(&self) -> bool {
        self.index < self.compact_heightfield@.spans.len()
    }

    /// The floor of the open space, in grid units.
    pub fn y_start_u16(&self) -> (r: u16)
        ensures
            r == self@.span().y,
    {
        proof {
            use_type_invariant(self);
        }
        self.compact_heightfield.spans[self.index].y
    }

    /// The height of the open space above its floor, in grid units.
    pub fn y_size_u32(&self) -> (r: u32)
        ensures
            r == self@.span().h,
    {
        proof {
            use_type_invariant(self);
        }
        self.compact_heightfield.spans[self.index].h as u32
    }

    /// The top of the open space, in grid units.
    pub fn y_end_u32(&self) -> (r: u32)
        ensures
            r == self@.span().y + self@.span().h,
    {
        self.y_start_u16() as u32 + self.y_size_u32()
    }

    /// The connection code towards `direction`: `NOT_CONNECTED`, or the
    /// position of the connected span within the neighbouring column.
    pub fn connection(&self, direction: Direction) -> (r: u32)
        ensures
            r == connection_field(self@.span().con, direction_index(direction)),
    {
        proof {
            use_type_invariant(self);
        }
        let k: u32 = match direction {
            Direction::NegX => 0,
            Direction::PosZ => 1,
            Direction::PosX => 2,
            Direction::NegZ => 3,
        };
        connection_code(self.compact_heightfield.spans[self.index].con, k)
    }
}

impl<'a> CompactSpan<'a, HasRegions> {
    /// The span's region id; zero for no region.
    pub fn region_id(&self) -> (r: u16)
        ensures
            r == self@.field.regions[self@.index],
            region_ok(r, self@.field.max_regions),
    {
        proof {
            use_type_invariant(self);
            use_type_invariant(self.compact_heightfield);
        }
        self.compact_heightfield.regions[self.index]
    }
}

} // verus!
