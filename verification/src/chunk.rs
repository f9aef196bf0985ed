//! A chunk: a dense cube of 16 x 16 x 16 voxels at an integer position.

use vstd::prelude::*;
use crate::coords::{as_position, cell_index, in_chunk, CHUNK_VOLUME};
use crate::voxel::{Voxel, VoxelType};

verus! {

/// What a chunk is: its position in chunk coordinates and the kinds of its
/// cells in storage order, the cell at local `(x, y, z)` standing at
/// `cell_index(x, y, z)`.
pub struct ChunkView {
    pub position: (int, int, int),
    pub cells: Seq<VoxelType>,
}

impl ChunkView {
    /// A chunk holds exactly 4096 cells.
    pub open spec fn wf(self) -> bool {
        self.cells.len() == 4096
    }

    /// The chunk at `position` whose cells are all `Air`.
    pub open spec fn empty(position: (int, int, int)) -> ChunkView {
        ChunkView { position, cells: Seq::new(4096, |i: int| VoxelType::Air) }
    }

    /// The kind of the cell at local `(x, y, z)`; `Air` outside the chunk.
    pub open spec fn voxel(self, x: int, y: int, z: int) -> VoxelType {
        if in_chunk(x, y, z) {
            self.cells[cell_index(x, y, z)]
        } else {
            VoxelType::Air
        }
    }

    /// This chunk after a write of `t` at local `(x, y, z)`: the one cell
    /// changed, or nothing changed where the coordinates lie outside.
    pub open spec fn with_voxel(self, x: int, y: int, z: int, t: VoxelType) -> ChunkView {
        if in_chunk(x, y, z) {
            ChunkView { position: self.position, cells: self.cells.update(cell_index(x, y, z), t) }
        } else {
            self
        }
    }
}

/// A cube of 16 x 16 x 16 voxels, stored as one contiguous sequence.
pub struct Chunk {
    voxels: Vec<Voxel>,
    position: (i32, i32, i32),
}

impl View for Chunk {
    type V = ChunkView;

    closed spec fn view(&self) -> ChunkView {
        ChunkView {
            position: as_position(self.position),
            cells: Seq::new(self.voxels@.len(), |i: int| self.voxels@[i].voxel_type),
        }
    }
}

impl Chunk {
    /// Every chunk is a full cube.
    #[verifier::type_invariant]
    pub open spec fn is_well_formed(&self) -> bool {
        self@.wf()
    }

    /// Makes the chunk at `position` with every cell `Air`.
    pub fn new(position: (i32, i32, i32)) -> (chunk: Chunk)
        ensures
            chunk@ == ChunkView::empty(as_position(position)),
            chunk@.wf(),
    {
        let mut voxels: Vec<Voxel> = Vec::with_capacity(CHUNK_VOLUME);
        let mut n: usize = 0;
        while n < CHUNK_VOLUME
            invariant
                n <= 4096,
                voxels@.len() == n,
                forall|i: int| 0 <= i < n ==> (#[trigger] voxels@[i]).voxel_type == VoxelType::Air,
            decreases 4096 - n,
        {
            voxels.push(Voxel { voxel_type: VoxelType::Air });
            n += 1;
        }
        let chunk = Chunk { voxels, position };
        assert(chunk@.cells =~= ChunkView::empty(chunk@.position).cells);
        chunk
    }

    /// The chunk's position, in chunk coordinates.
    pub fn position(&self) -> (p: (i32, i32, i32))
        ensures
            as_position(p) == self@.position,
    {
        self.position
    }

    /// Reads the cell at local `(x, y, z)`. A coordinate of 16 or more reads
    /// as `Air`, whatever the chunk holds.
    pub fn get_voxel(&self, x: usize, y: usize, z: usize) -> (t: VoxelType)
        ensures
            self@.wf(),
            t == self@.voxel(x as int, y as int, z as int),
            (x >= 16 || y >= 16 || z >= 16) ==> t == VoxelType::Air,
    {
        proof {
            use_type_invariant(self);
        }
        if x < 16 && y < 16 && z < 16 {
            self.voxels[y * 16 * 16 + z * 16 + x].voxel_type
        } else {
            VoxelType::Air
        }
    }

    /// Writes `voxel_type` into the cell at local `(x, y, z)`. With a
    /// coordinate of 16 or more the chunk stays as it is.
    pub fn set_voxel(&mut self, x: usize, y: usize, z: usize, voxel_type: VoxelType)
        ensures
            final(self)@ == old(self)@.with_voxel(x as int, y as int, z as int, voxel_type),
            final(self)@.wf(),
    {
        proof {
            use_type_invariant(&*self);
        }
        if x < 16 && y < 16 && z < 16 {
            self.voxels[y * 16 * 16 + z * 16 + x] = Voxel { voxel_type };
            assert(self@.cells =~= old(self)@.with_voxel(
                x as int,
                y as int,
                z as int,
                voxel_type,
            ).cells);
        }
    }
}

/// A write into a chunk is read back from the same cell, and leaves every
/// other cell as it was.
pub proof fn lemma_chunk_write_then_read(
    chunk: ChunkView,
    x: int,
    y: int,
    z: int,
    t: VoxelType,
    a: int,
    b: int,
    c: int,
)
    requires
        chunk.wf(),
        in_chunk(x, y, z),
    ensures
        chunk.with_voxel(x, y, z, t).wf(),
        chunk.with_voxel(x, y, z, t).position == chunk.position,
        chunk.with_voxel(x, y, z, t).voxel(x, y, z) == t,
        (a, b, c) != (x, y, z) ==> chunk.with_voxel(x, y, z, t).voxel(a, b, c) == chunk.voxel(
            a,
            b,
            c,
        ),
{
}

/// Outside the cube every read gives `Air`, whatever was written before, and
/// a write there changes nothing.
pub proof fn lemma_chunk_outside_is_air(chunk: ChunkView, x: int, y: int, z: int, t: VoxelType)
    requires
        !in_chunk(x, y, z),
    ensures
        chunk.voxel(x, y, z) == VoxelType::Air,
        chunk.with_voxel(x, y, z, t) == chunk,
{
}

} // verus!
