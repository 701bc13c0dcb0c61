use vstd::prelude::*;

use crate::heightfield::grid_cells;
use crate::vector::Vec3;

verus! {

/// The content of one heightfield layer: a `width` by `height` grid with a
/// height, an area id and packed neighbour bits per cell, and the inclusive
/// grid bounds of the cells it uses (x, height, z).
pub struct HeightfieldLayerView {
    pub width: int,
    pub height: int,
    pub grid_min: Vec3<i32>,
    pub grid_max: Vec3<i32>,
    pub heights: Seq<u8>,
    pub areas: Seq<u8>,
    pub cons: Seq<u8>,
}

impl HeightfieldLayerView {
    pub open spec fn wf(self) -> bool {
        &&& 0 < self.width <= i32::MAX
        &&& 0 < self.height <= i32::MAX
        &&& self.heights.len() == self.width * self.height
        &&& self.areas.len() == self.width * self.height
        &&& self.cons.len() == self.width * self.height
        &&& 0 <= self.grid_min.x <= self.grid_max.x < self.width
        &&& 0 <= self.grid_min.z <= self.grid_max.z < self.height
        &&& self.grid_min.y <= self.grid_max.y
    }
}

/// One horizontal slab of a heightfield, in which no two spans overlap.
pub struct HeightfieldLayer {
    width: i32,
    height: i32,
    grid_min: Vec3<i32>,
    grid_max: Vec3<i32>,
    heights: Vec<u8>,
    areas: Vec<u8>,
    cons: Vec<u8>,
}

impl View for HeightfieldLayer {
    type V = HeightfieldLayerView;

    closed spec fn view(&self) -> HeightfieldLayerView {
        HeightfieldLayerView {
            width: self.width as int,
            height: self.height as int,
            grid_min: self.grid_min,
            grid_max: self.grid_max,
            heights: self.heights@,
            areas: self.areas@,
            cons: self.cons@,
        }
    }
}

impl HeightfieldLayer {
    #[verifier::type_invariant]
    closed spec fn inv(&self) -> bool {
        self@.wf()
    }

    /// Builds a layer from its grid size, its used bounds and its per-cell
    /// tables. Fails when the grid is empty, a table does not have one entry
    /// per cell, or the bounds are reversed or leave the grid.
    pub fn from_parts(
        width: i32,
        height: i32,
        grid_min: Vec3<i32>,
        grid_max: Vec3<i32>,
        heights: Vec<u8>,
        areas: Vec<u8>,
        cons: Vec<u8>,
    ) -> (r: Result<Self, ()>)
        ensures
            ({
                let v = HeightfieldLayerView {
                    width: width as int,
                    height: height as int,
                    grid_min,
                    grid_max,
                    heights: heights@,
                    areas: areas@,
                    cons: cons@,
                };
                &&& r is Ok <==> v.wf()
                &&& r matches Ok(l) ==> l@ == v
            }),
    {
        if width <= 0 || height <= 0 {
            return Err(());
        }
        let cells = grid_cells(width, height);
        if heights.len() as u64 != cells || areas.len() as u64 != cells || cons.len() as u64
            != cells {
            return Err(());
        }
        if !(0 <= grid_min.x && grid_min.x <= grid_max.x && grid_max.x < width) {
            return Err(());
        }
        if !(0 <= grid_min.z && grid_min.z <= grid_max.z && grid_max.z < height) {
            return Err(());
        }
        if grid_min.y > grid_max.y {
            return Err(());
        }
        Ok(HeightfieldLayer { width, height, grid_min, grid_max, heights, areas, cons })
    }

    pub fn grid_width(&self) -> (r: i32)
        ensures
            r == self@.width,
            self@.wf(),
    {
        proof {
            use_type_invariant(self);
        }
        self.width
    }

    pub fn grid_height(&self) -> (r: i32)
        ensures
            r == self@.height,
    {
        self.height
    }

    /// The smallest used cell coordinates: x, height and z.
    pub fn grid_min_bounds(&self) -> (r: Vec3<i32>)
        ensures
            r == self@.grid_min,
    {
        self.grid_min
    }

    /// The largest used cell coordinates (inclusive): x, height and z.
    pub fn grid_max_bounds(&self) -> (r: Vec3<i32>)
        ensures
            r == self@.grid_max,
    {
        self.grid_max
    }

    /// The height of each cell above the layer's lowest height.
    pub fn heights(&self) -> (r: &[u8])
        ensures
            r@ == self@.heights,
    {
        self.heights.as_slice()
    }

    /// The area id of each cell.
    pub fn areas(&self) -> (r: &[u8])
        ensures
            r@ == self@.areas,
    {
        self.areas.as_slice()
    }

    /// The packed neighbour bits of each cell.
    pub fn packed_connection_info(&self) -> (r: &[u8])
        ensures
            r@ == self@.cons,
    {
        self.cons.as_slice()
    }
}

/// The layers that a compact heightfield was sliced into.
pub struct HeightfieldLayerSet {
    layers: Vec<HeightfieldLayer>,
}

impl View for HeightfieldLayerSet {
    type V = Seq<HeightfieldLayerView>;

    closed spec fn view(&self) -> Seq<HeightfieldLayerView> {
        self.layers@.map_values(|l: HeightfieldLayer| l@)
    }
}

impl HeightfieldLayerSet {
    pub fn from_layers(layers: Vec<HeightfieldLayer>) -> (r: Self)
        ensures
            r@ == layers@.map_values(|l: HeightfieldLayer| l@),
    {
        HeightfieldLayerSet { layers }
    }

    /// The number of layers.
    pub fn len(&self) -> (r: usize)
        ensures
            r == self@.len(),
    {
        self.layers.len()
    }

    /// The layer at `index`.
    pub fn get_layer(&self, index: usize) -> (r: &HeightfieldLayer)
        requires
            index < self@.len(),
        ensures
            r@ == self@[index as int],
    {
        &self.layers[index]
    }

    /// Every layer, in order.
    pub fn as_vec(&self) -> (r: Vec<&HeightfieldLayer>)
        ensures
            r@.len() == self@.len(),
            forall|i: int| 0 <= i < r@.len() ==> (#[trigger] r@[i])@ == self@[i],
    {
        let n = self.layers.len();
        let mut out: Vec<&HeightfieldLayer> = Vec::new();
        let mut i: usize = 0;
        while i < n
            invariant
                n == self@.len(),
                i <= n,
                out@.len() == i,
                forall|k: int| 0 <= k < i ==> (#[trigger] out@[k])@ == self@[k],
            decreases n - i,
        {
            out.push(self.get_layer(i));
            i = i + 1;
        }
        out
    }
}

} // verus!
