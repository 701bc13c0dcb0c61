use vstd::prelude::*;

verus! {

/// The largest height, in grid units, that a heightfield span may reach.
pub const SPAN_MAX_HEIGHT: u32 = 8191;

/// The largest area id a span can carry (six bits).
pub const MAX_AREA_ID: u32 = 63;

/// One solid span of a heightfield column, in grid units.
#[derive(Debug, PartialEq, Eq, Clone, Copy)]
pub struct ColumnSpan {
    pub height_min: u32,
    pub height_max: u32,
    pub area: u32,
}

/// A span is well formed when it is not empty, stays below the height cap and
/// its area id fits in six bits.
pub open spec fn span_ok(s: ColumnSpan) -> bool {
    &&& s.height_min < s.height_max
    &&& s.height_max <= SPAN_MAX_HEIGHT
    &&& s.area <= MAX_AREA_ID
}

/// A column is well formed when each span is, and the spans are stored from
/// the bottom up without touching or overlapping.
pub open spec fn column_ok(c: Seq<ColumnSpan>) -> bool {
    &&& forall|i: int| 0 <= i < c.len() ==> span_ok(#[trigger] c[i])
    &&& forall|i: int| 0 <= i < c.len() - 1 ==> (#[trigger] c[i]).height_max < c[i + 1].height_min
}

/// The mathematical content of a heightfield: a `width` by `height` grid of
/// columns, column `x + z * width` holding the spans over cell `(x, z)`.
pub struct HeightfieldView {
    pub width: int,
    pub height: int,
    pub columns: Seq<Seq<ColumnSpan>>,
}

impl HeightfieldView {
    pub open spec fn wf(self) -> bool {
        &&& 0 < self.width
        &&& 0 < self.height
        &&& self.columns.len() == self.width * self.height
        &&& forall|i: int| 0 <= i < self.columns.len() ==> column_ok(#[trigger] self.columns[i])
    }
}

/// A voxelised heightfield: a grid of columns, each a list of solid spans in
/// increasing height order.
pub struct Heightfield {
    width: i32,
    height: i32,
    columns: Vec<Vec<ColumnSpan>>,
}

pub open spec fn columns_view(columns: Seq<Vec<ColumnSpan>>) -> Seq<Seq<ColumnSpan>> {
    columns.map_values(|c: Vec<ColumnSpan>| c@)
}

proof fn lemma_columns_view(columns: Seq<Vec<ColumnSpan>>)
    ensures
        columns_view(columns).len() == columns.len(),
        forall|k: int| 0 <= k < columns.len() ==> #[trigger] columns_view(columns)[k] == columns[k]@,
{
}

impl View for Heightfield {
    type V = HeightfieldView;

    closed spec fn view(&self) -> HeightfieldView {
        HeightfieldView {
            width: self.width as int,
            height: self.height as int,
            columns: columns_view(self.columns@),
        }
    }
}

impl Heightfield {
    #[verifier::type_invariant]
    closed spec fn inv(&self) -> bool {
        self@.wf()
    }

    pub fn grid_width(&self) -> (r: i32)
        ensures
            r == self@.width,
    {
        self.width
    }

    pub fn grid_height(&self) -> (r: i32)
        ensures
            r == self@.height,
    {
        self.height
    }

    /// The number of columns, one per grid cell.
    pub fn spans_len(&self) -> (r: usize)
        ensures
            r == self@.columns.len(),
            r == self@.width * self@.height,
            self@.wf(),
    {
        proof {
            use_type_invariant(self);
        }
        self.columns.len()
    }

    /// The lowest span of column `index`, if the column holds any.
    pub fn span(&self, index: usize) -> (r: Option<HeightfieldSpan<'_>>)
        requires
            index < self@.columns.len(),
        ensures
            r is None <==> self@.columns[index as int].len() == 0,
            r matches Some(s) ==> s@ == (HeightfieldSpanView {
                field: self@,
                column: index as int,
                position: 0,
            }),
    {
        proof {
            use_type_invariant(self);
        }
        if self.columns[index].len() == 0 {
            None
        } else {
            Some(HeightfieldSpan { heightfield: self, column: index, position: 0 })
        }
    }

    /// The lowest span over grid cell `(grid_x, grid_y)`, if there is one.
    pub fn span_by_grid(&self, grid_x: i32, grid_y: i32) -> (r: Option<HeightfieldSpan<'_>>)
        requires
            0 <= grid_x < self@.width,
            0 <= grid_y < self@.height,
        ensures
            r is None <==> self@.columns[grid_x + grid_y * self@.width].len() == 0,
            r matches Some(s) ==> s@ == (HeightfieldSpanView {
                field: self@,
                column: grid_x + grid_y * self@.width,
                position: 0,
            }),
    {
        proof {
            use_type_invariant(self);
            lemma_columns_view(self.columns@);
            let w = self.width as int;
            let h = self.height as int;
            assert(0 <= grid_x + grid_y * w < w * h) by (nonlinear_arith)
                requires
                    0 <= grid_x < w,
                    0 <= grid_y < h,
            ;
            assert(0 <= grid_y * w) by (nonlinear_arith)
                requires
                    0 <= grid_y,
                    0 <= w,
            ;
        }
        assert(grid_x + grid_y * self.width < self.columns.len());
        let index = grid_x as usize + grid_y as usize * self.width as usize;
        self.span(index)
    }

    /// The lowest span of every column, column by column.
    pub fn spans_iter(&self) -> (r: Vec<Option<HeightfieldSpan<'_>>>)
        ensures
            r@.len() == self@.columns.len(),
            forall|i: int|
                0 <= i < r@.len() ==> (#[trigger] r@[i] is None <==> self@.columns[i].len() == 0),
            forall|i: int|
                0 <= i < r@.len() ==> (#[trigger] r@[i] matches Some(s) ==> s@ == (
                HeightfieldSpanView { field: self@, column: i, position: 0 })),
    {
        let n = self.spans_len();
        let mut out: Vec<Option<HeightfieldSpan<'_>>> = Vec::new();
        let mut i: usize = 0;
        while i < n
            invariant
                n == self@.columns.len(),
                i <= n,
                out@.len() == i,
                forall|k: int|
                    0 <= k < i ==> (#[trigger] out@[k] is None <==> self@.columns[k].len() == 0),
                forall|k: int|
                    0 <= k < i ==> (#[trigger] out@[k] matches Some(s) ==> s@ == (
                    HeightfieldSpanView { field: self@, column: k, position: 0 })),
            decreases n - i,
        {
            out.push(self.span(i));
            i = i + 1;
        }
        out
    }

    /// Builds a heightfield from its columns, listed cell by cell (x first,
    /// then z). Fails when the grid is empty, the column count does not match
    /// the grid, or a column is not well formed.
    pub fn from_columns(width: i32, height: i32, columns: Vec<Vec<ColumnSpan>>) -> (r: Result<
        Self,
        (),
    >)
        ensures
            r is Ok <==> (HeightfieldView {
                width: width as int,
                height: height as int,
                columns: columns_view(columns@),
            }).wf(),
            r matches Ok(h) ==> h@ == (HeightfieldView {
                width: width as int,
                height: height as int,
                columns: columns_view(columns@),
            }),
    {
        if width <= 0 || height <= 0 {
            return Err(());
        }
        let cells: u64 = grid_cells(width, height);
        if columns.len() as u64 != cells {
            return Err(());
        }
        let mut i: usize = 0;
        while i < columns.len()
            invariant
                i <= columns.len(),
                forall|k: int| 0 <= k < i ==> column_ok(#[trigger] columns@[k]@),
            decreases columns.len() - i,
        {
            if !column_is_well_formed(&columns[i]) {
                assert(!column_ok(columns_view(columns@)[i as int]));
                return Err(());
            }
            i = i + 1;
        }
        let ghost cv = columns_view(columns@);
        assert(forall|k: int| 0 <= k < columns@.len() ==> #[trigger] cv[k] == columns@[k]@);
        assert(forall|k: int| 0 <= k < cv.len() ==> column_ok(#[trigger] cv[k]));
        Ok(Heightfield { width, height, columns })
    }
}

/// Where a span sits: the heightfield, its column and its place in the column,
/// counted from the bottom.
pub struct HeightfieldSpanView {
    pub field: HeightfieldView,
    pub column: int,
    pub position: int,
}

impl HeightfieldSpanView {
    pub open spec fn span(self) -> ColumnSpan {
        self.field.columns[self.column][self.position]
    }

    pub open spec fn wf(self) -> bool {
        &&& self.field.wf()
        &&& 0 <= self.column < self.field.columns.len()
        &&& 0 <= self.position < self.field.columns[self.column].len()
    }
}

/// A span of a heightfield, borrowed from it.
#[derive(Clone, Copy)]
pub struct HeightfieldSpan<'a> {
    heightfield: &'a Heightfield,
    column: usize,
    position: usize,
}

impl<'a> View for HeightfieldSpan<'a> {
    type V = HeightfieldSpanView;

    closed spec fn view(&self) -> HeightfieldSpanView {
        HeightfieldSpanView {
            field: self.heightfield@,
            column: self.column as int,
            position: self.position as int,
        }
    }
}

impl<'a> HeightfieldSpan<'a> {
    #[verifier::type_invariant]
    closed spec fn inv(&self) -> bool {
        self@.wf()
    }

    pub fn height_min_u32(&self) -> (r: u32)
        ensures
            r == self@.span().height_min,
    {
        proof {
            use_type_invariant(self);
        }
        self.heightfield.columns[self.column][self.position].height_min
    }

    pub fn height_max_u32(&self) -> (r: u32)
        ensures
            r == self@.span().height_max,
    {
        proof {
            use_type_invariant(self);
        }
        self.heightfield.columns[self.column][self.position].height_max
    }

    pub fn area_id(&self) -> (r: u32)
        ensures
            r == self@.span().area,
    {
        proof {
            use_type_invariant(self);
        }
        self.heightfield.columns[self.column][self.position].area
    }

    /// The span just above this one in the same column, if any.
    pub fn next_span_in_column(&self) -> (r: Option<Self>)
        ensures
            r is None <==> self@.position + 1 == self@.field.columns[self@.column].len(),
            r matches Some(n) ==> n@ == (HeightfieldSpanView {
                position: self@.position + 1,
                ..self@
            }),
            r matches Some(n) ==> self@.span().height_max < n@.span().height_min,
    {
        proof {
            use_type_invariant(self);
            use_type_invariant(self.heightfield);
            lemma_columns_view(self.heightfield.columns@);
        }
        let len = self.heightfield.columns[self.column].len();
        if self.position < len - 1 {
            Some(HeightfieldSpan {
                heightfield: self.heightfield,
                column: self.column,
                position: self.position + 1,
            })
        } else {
            None
        }
    }

    /// Every span from `head` up to the top of its column, bottom first.
    pub fn collect(head: Option<Self>) -> (r: Vec<Self>)
        ensures
            head is None ==> r@.len() == 0,
            head matches Some(h) ==> {
                &&& r@.len() == h@.field.columns[h@.column].len() - h@.position
                &&& forall|i: int|
                    0 <= i < r@.len() ==> (#[trigger] r@[i])@ == (HeightfieldSpanView {
                        position: h@.position + i,
                        ..h@
                    })
            },
    {
        let mut out: Vec<Self> = Vec::new();
        let mut cur = head;
        let ghost first = head;
        while cur.is_some()
            invariant
                first is None ==> cur is None && out@.len() == 0,
                first matches Some(h) ==> {
                    &&& cur matches Some(c) ==> c@ == (HeightfieldSpanView {
                        position: h@.position + out@.len(),
                        ..h@
                    })
                    &&& cur is None ==> out@.len() == h@.field.columns[h@.column].len() - h@.position
                    &&& forall|i: int|
                        0 <= i < out@.len() ==> (#[trigger] out@[i])@ == (HeightfieldSpanView {
                            position: h@.position + i,
                            ..h@
                        })
                },
            decreases (match cur {
                Some(c) => c@.field.columns[c@.column].len() - c@.position,
                None => 0,
            }),
        {
            let span = cur.unwrap();
            proof {
                use_type_invariant(&span);
            }
            out.push(span);
            cur = span.next_span_in_column();
        }
        out
    }
}

/// The number of cells of a `width` by `height` grid.
pub fn grid_cells(width: i32, height: i32) -> (r: u64)
    requires
        0 < width,
        0 < height,
    ensures
        r == width * height,
{
    assert(0 < (width as int) * (height as int) < 0x4000_0000_0000_0000) by (nonlinear_arith)
        requires
            0 < width <= 0x7fff_ffff,
            0 < height <= 0x7fff_ffff,
    ;
    width as u64 * height as u64
}

/// Tells whether a column is well formed.
fn column_is_well_formed(column: &Vec<ColumnSpan>) -> (r: bool)
    ensures
        r == column_ok(column@),
{
    let mut i: usize = 0;
    while i < column.len()
        invariant
            i <= column.len(),
            forall|k: int| 0 <= k < i ==> span_ok(#[trigger] column@[k]),
            forall|k: int| 0 <= k < i as int - 1 ==> (#[trigger] column@[k]).height_max < column@[k + 1].height_min,
        decreases column.len() - i,
    {
        let s = column[i];
        if !(s.height_min < s.height_max && s.height_max <= SPAN_MAX_HEIGHT && s.area <= MAX_AREA_ID) {
            assert(!span_ok(column@[i as int]));
            return false;
        }
        if i > 0 && column[i - 1].height_max >= s.height_min {
            assert(!((column@[i - 1]).height_max < column@[i - 1 + 1].height_min));
            return false;
        }
        i = i + 1;
    }
    true
}

} // verus!
