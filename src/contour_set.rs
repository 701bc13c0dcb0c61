use vstd::prelude::*;

verus! {

/// Tessellate solid (impassable) edges during contour simplification.
pub const TESSELLATE_WALL_EDGES: i32 = 0x01;

/// Tessellate edges between areas during contour simplification.
pub const TESSELLATE_AREA_EDGES: i32 = 0x02;

/// Which edges contour simplification subdivides so that none is longer than
/// the edge-length limit.
#[derive(Debug, PartialEq, Eq, Clone, Copy)]
pub struct ContourBuildFlags {
    /// Tessellate solid (impassable) edges. By default, only this flag is set.
    pub tessellate_wall_edges: bool,
    /// Tessellate edges between areas.
    pub tessellate_area_edges: bool,
}

impl ContourBuildFlags {
    /// The flags as the bit set that contour building takes.
    pub fn bits(&self) -> (r: i32)
        ensures
            r == (if self.tessellate_wall_edges {
                TESSELLATE_WALL_EDGES
            } else {
                0
            }) + (if self.tessellate_area_edges {
                TESSELLATE_AREA_EDGES
            } else {
                0
            }),
    {
        let wall: i32 = if self.tessellate_wall_edges {
            TESSELLATE_WALL_EDGES
        } else {
            0
        };
        let area: i32 = if self.tessellate_area_edges {
            TESSELLATE_AREA_EDGES
        } else {
            0
        };
        wall + area
    }
}

impl Default for ContourBuildFlags {
    fn default() -> (r: Self)
        ensures
            r.tessellate_wall_edges,
            !r.tessellate_area_edges,
    {
        ContourBuildFlags { tessellate_wall_edges: true, tessellate_area_edges: false }
    }
}

/// A vertex of a contour, in grid units, with the flags that record why it
/// was kept.
#[derive(Debug, PartialEq, Eq, Clone, Copy)]
pub struct ContourVertex {
    pub x: i32,
    pub y: i32,
    pub z: i32,
    pub flags: i32,
}

/// The simplified, closed outline of one region.
pub struct Contour {
    pub vertices: Vec<ContourVertex>,
    pub region_id: u16,
    pub area_id: u8,
}

/// The outlines of the regions of a compact heightfield, one per region.
pub struct ContourSet {
    contours: Vec<Contour>,
}

impl View for ContourSet {
    type V = Seq<Contour>;

    closed spec fn view(&self) -> Seq<Contour> {
        self.contours@
    }
}

impl ContourSet {
    pub fn from_contours(contours: Vec<Contour>) -> (r: Self)
        ensures
            r@ == contours@,
    {
        ContourSet { contours }
    }

    /// The number of contours.
    pub fn len(&self) -> (r: usize)
        ensures
            r == self@.len(),
    {
        self.contours.len()
    }

    /// Every contour, in order.
    pub fn contours(&self) -> (r: &[Contour])
        ensures
            r@ == self@,
    {
        self.contours.as_slice()
    }
}

} // verus!
