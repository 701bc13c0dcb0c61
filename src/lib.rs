use vstd::prelude::*;

mod compact_heightfield;
mod contour_set;
mod heightfield;
mod heightfield_layer_set;
mod poly_mesh;
mod poly_mesh_detail;
pub mod util;
mod vector;

pub use compact_heightfield::{
    connection_field, direction_dx, direction_dz, direction_index, region_ok, spans_before,
    BORDER_REGION, CompactCell, CompactHeightfield, CompactHeightfieldState,
    CompactHeightfieldView, CompactSpan, CompactSpanData, CompactSpanView, Direction, HasRegions,
    NoRegions, CONNECTION_LIMIT, NOT_CONNECTED,
};
pub use contour_set::{
    Contour, ContourBuildFlags, ContourSet, ContourVertex, TESSELLATE_AREA_EDGES,
    TESSELLATE_WALL_EDGES,
};
pub use heightfield::{
    column_ok, columns_view, grid_cells, span_ok, ColumnSpan, Heightfield, HeightfieldSpan,
    HeightfieldSpanView, HeightfieldView, MAX_AREA_ID, SPAN_MAX_HEIGHT,
};
pub use heightfield_layer_set::{HeightfieldLayer, HeightfieldLayerSet, HeightfieldLayerView};
pub use poly_mesh::{
    lemma_neighbours_are_symmetric, ElementView, PolyMesh, PolyMeshPolygon, PolyMeshVertex,
    PolyMeshView, EXTERNAL_LINK, MAX_MESH_VERTICES, NULL_INDEX,
};
pub use poly_mesh_detail::{
    edge_on_boundary, DetailElementView, PolyMeshDetail, PolyMeshDetailSubmesh,
    PolyMeshDetailTriangle, PolyMeshDetailView,
};
pub use vector::Vec3;

verus! {

/// The area id of spans and triangles that cannot be walked on.
pub const INVALID_AREA_ID: u8 = 0;

/// The area id given to walkable spans and triangles.
pub const WALKABLE_AREA_ID: u8 = 63;

/// Settings for the diagnostics (log and timers) that the build stages
/// report to.
pub struct Context {
    diagnostics_enabled: bool,
}

impl Context {
    /// A context with diagnostics turned off.
    pub fn new() -> (r: Self)
        ensures
            !r.diagnostics_enabled_spec(),
    {
        Context { diagnostics_enabled: false }
    }

    pub closed spec fn diagnostics_enabled_spec(&self) -> bool {
        self.diagnostics_enabled
    }

    /// Whether the build stages log and time their work.
    pub fn diagnostics_enabled(&self) -> (r: bool)
        ensures
            r == self.diagnostics_enabled_spec(),
    {
        self.diagnostics_enabled
    }
}

} // verus!
