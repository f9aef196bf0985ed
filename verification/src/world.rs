//! The world: a collection of chunks, no two at the same position, read and
//! written by world coordinates.

use vstd::prelude::*;
use crate::chunk::{Chunk, ChunkView};
use crate::coords::{
    as_position, chunk_of, chunk_position, in_chunk, local_coord, local_of,
};
use crate::terrain::{
    generate_chunk, in_grid, lemma_column_is_layered, lemma_terrain_chunk_voxel, surface_height,
    terrain_chunk, terrain_voxel,
};
use crate::voxel::VoxelType;

verus! {

/// What a world is: its chunks, in the order in which they were added.
pub struct WorldView {
    pub chunks: Seq<ChunkView>,
}

impl WorldView {
    /// Every chunk is a full cube, and no two chunks share a position.
    pub open spec fn wf(self) -> bool {
        &&& forall|i: int| 0 <= i < self.chunks.len() ==> (#[trigger] self.chunks[i]).wf()
        &&& forall|i: int, j: int|
            0 <= i < j < self.chunks.len() ==> (#[trigger] self.chunks[i]).position != (
            #[trigger] self.chunks[j]).position
    }

    /// Whether chunk `i` of the collection is the one at position `p`.
    pub open spec fn is_chunk_at(self, i: int, p: (int, int, int)) -> bool {
        0 <= i < self.chunks.len() && self.chunks[i].position == p
    }

    /// Whether the world holds a chunk at position `p`.
    pub open spec fn has_chunk(self, p: (int, int, int)) -> bool {
        exists|i: int| self.is_chunk_at(i, p)
    }

    /// Where the chunk at position `p` stands in the collection, if there is one.
    pub open spec fn chunk_index(self, p: (int, int, int)) -> int {
        choose|i: int| self.is_chunk_at(i, p)
    }

    /// The kind of the voxel at world `(x, y, z)`: read from the chunk that
    /// holds the position, `Air` where the world has no such chunk.
    pub open spec fn voxel_at(self, x: int, y: int, z: int) -> VoxelType {
        let p = chunk_position(x, y, z);
        if self.has_chunk(p) {
            self.chunks[self.chunk_index(p)].voxel(local_coord(x), local_coord(y), local_coord(z))
        } else {
            VoxelType::Air
        }
    }

    /// This world after a write of `t` at world `(x, y, z)`: the write lands
    /// in the chunk that holds the position, and where there is none, a chunk
    /// of `Air` is first added at the end of the collection.
    pub open spec fn with_voxel(self, x: int, y: int, z: int, t: VoxelType) -> WorldView {
        let p = chunk_position(x, y, z);
        let (lx, ly, lz) = (local_coord(x), local_coord(y), local_coord(z));
        if self.has_chunk(p) {
            let i = self.chunk_index(p);
            WorldView { chunks: self.chunks.update(i, self.chunks[i].with_voxel(lx, ly, lz, t)) }
        } else {
            WorldView { chunks: self.chunks.push(ChunkView::empty(p).with_voxel(lx, ly, lz, t)) }
        }
    }
}

/// The world as it is at the start: nine chunks of generated terrain in one
/// layer, at x and z from -1 to 1, added x by x and within one x, z by z.
pub open spec fn starting_world() -> WorldView {
    WorldView { chunks: Seq::new(9, |i: int| terrain_chunk((i / 3 - 1, 0, i % 3 - 1))) }
}

/// A collection of chunks. It grows when a voxel is written where no chunk
/// is yet, and never shrinks.
pub struct World {
    chunks: Vec<Chunk>,
}

impl View for World {
    type V = WorldView;

    closed spec fn view(&self) -> WorldView {
        WorldView { chunks: Seq::new(self.chunks@.len(), |i: int| self.chunks@[i]@) }
    }
}

/// Looks for the chunk at `position` from the front of the collection.
fn find_chunk(chunks: &Vec<Chunk>, position: (i32, i32, i32)) -> (found: Option<usize>)
    ensures
        match found {
            Some(i) => i < chunks@.len() && chunks@[i as int]@.position == as_position(position),
            None => forall|j: int|
                0 <= j < chunks@.len() ==> (#[trigger] chunks@[j])@.position != as_position(
                    position,
                ),
        },
{
    let mut i: usize = 0;
    while i < chunks.len()
        invariant
            i <= chunks.len(),
            forall|j: int|
                0 <= j < i ==> (#[trigger] chunks@[j])@.position != as_position(position),
        decreases chunks.len() - i,
    {
        let p = chunks[i].position();
        if p.0 == position.0 && p.1 == position.1 && p.2 == position.2 {
            return Some(i);
        }
        i += 1;
    }
    None
}

impl World {
    /// Every world is well-formed.
    #[verifier::type_invariant]
    pub open spec fn is_well_formed(&self) -> bool {
        self@.wf()
    }

    /// Makes a world without any chunk.
    pub fn empty() -> (world: World)
        ensures
            world@.chunks.len() == 0,
            world@.wf(),
    {
        World { chunks: Vec::new() }
    }

    /// Makes the starting world: nine chunks at the positions
    /// `{-1, 0, 1} x {0} x {-1, 0, 1}`, filled with the generated terrain.
    pub fn new() -> (world: World)
        ensures
            world@ == starting_world(),
            world@.wf(),
    {
        let mut chunks: Vec<Chunk> = Vec::new();
        let mut x: i32 = -1;
        while x <= 1
            invariant
                -1 <= x <= 2,
                chunks@.len() == 3 * (x + 1),
                forall|i: int|
                    0 <= i < chunks@.len() ==> (#[trigger] chunks@[i])@ == terrain_chunk(
                        (i / 3 - 1, 0, i % 3 - 1),
                    ),
            decreases 2 - x,
        {
            let mut z: i32 = -1;
            while z <= 1
                invariant
                    -1 <= x <= 1,
                    -1 <= z <= 2,
                    chunks@.len() == 3 * (x + 1) + (z + 1),
                    forall|i: int|
                        0 <= i < chunks@.len() ==> (#[trigger] chunks@[i])@ == terrain_chunk(
                            (i / 3 - 1, 0, i % 3 - 1),
                        ),
                decreases 2 - z,
            {
                let chunk = generate_chunk(x, z);
                chunks.push(chunk);
                z += 1;
            }
            x += 1;
        }
        let ghost view = WorldView { chunks: Seq::new(chunks@.len(), |i: int| chunks@[i]@) };
        proof {
            assert(view.chunks =~= starting_world().chunks);
            lemma_starting_world_is_wf();
        }
        World { chunks }
    }

    /// The number of chunks that the world holds.
    pub fn chunk_count(&self) -> (n: usize)
        ensures
            n == self@.chunks.len(),
    {
        self.chunks.len()
    }

    /// Chunk `i` of the collection, counted from 0 in the order in which the
    /// chunks were added; `None` from the number of chunks on.
    pub fn chunk(&self, i: usize) -> (chunk: Option<&Chunk>)
        ensures
            self@.wf(),
            match chunk {
                Some(c) => i < self@.chunks.len() && c@ == self@.chunks[i as int],
                None => i >= self@.chunks.len(),
            },
    {
        proof {
            use_type_invariant(self);
        }
        if i < self.chunks.len() {
            Some(&self.chunks[i])
        } else {
            None
        }
    }

    /// The positions of the world's chunks, in the order in which the chunks
    /// were added.
    pub fn chunk_positions(&self) -> (positions: Vec<(i32, i32, i32)>)
        ensures
            positions@.len() == self@.chunks.len(),
            forall|i: int|
                0 <= i < positions@.len() ==> as_position(#[trigger] positions@[i])
                    == self@.chunks[i].position,
    {
        let mut positions: Vec<(i32, i32, i32)> = Vec::new();
        let mut i: usize = 0;
        while i < self.chunks.len()
            invariant
                i <= self.chunks.len(),
                positions@.len() == i,
                forall|j: int|
                    0 <= j < i ==> as_position(#[trigger] positions@[j])
                        == self@.chunks[j].position,
            decreases self.chunks.len() - i,
        {
            positions.push(self.chunks[i].position());
            i += 1;
        }
        positions
    }

    /// Reads the voxel at world `(x, y, z)`; `Air` where no chunk holds the
    /// position.
    pub fn get_voxel(&self, x: i32, y: i32, z: i32) -> (t: VoxelType)
        ensures
            self@.wf(),
            t == self@.voxel_at(x as int, y as int, z as int),
    {
        proof {
            use_type_invariant(self);
        }
        let position = (chunk_of(x), chunk_of(y), chunk_of(z));
        match find_chunk(&self.chunks, position) {
            Some(i) => {
                proof {
                    lemma_chunk_at_is_unique(self@, i as int, as_position(position));
                }
                self.chunks[i].get_voxel(local_of(x), local_of(y), local_of(z))
            },
            None => {
                assert(!self@.has_chunk(as_position(position))) by {
                    if self@.has_chunk(as_position(position)) {
                        let k = self@.chunk_index(as_position(position));
                        assert(self@.chunks[k] == self.chunks@[k]@);
                    }
                }
                VoxelType::Air
            },
        }
    }

    /// Writes `voxel_type` at world `(x, y, z)`, adding a chunk of `Air` first
    /// where none holds the position. The written voxel reads back as
    /// `voxel_type`; every other voxel of the world reads as before.
    pub fn set_voxel(&mut self, x: i32, y: i32, z: i32, voxel_type: VoxelType)
        ensures
            final(self)@ == old(self)@.with_voxel(x as int, y as int, z as int, voxel_type),
            final(self)@.wf(),
            final(self)@.voxel_at(x as int, y as int, z as int) == voxel_type,
            forall|a: int, b: int, c: int|
                (a, b, c) != (x as int, y as int, z as int) ==> #[trigger] final(self)@.voxel_at(
                    a,
                    b,
                    c,
                ) == old(self)@.voxel_at(a, b, c),
    {
        proof {
            use_type_invariant(&*self);
        }
        let position = (chunk_of(x), chunk_of(y), chunk_of(z));
        let ghost p = as_position(position);
        let ghost before = self@;
        let ghost after = before.with_voxel(x as int, y as int, z as int, voxel_type);
        // The collection is taken out of the world while it changes, and put
        // back once it holds the written voxel.
        let mut chunks: Vec<Chunk> = Vec::new();
        core::mem::swap(&mut self.chunks, &mut chunks);
        assert(before.chunks =~= Seq::new(chunks@.len(), |j: int| chunks@[j]@));
        match find_chunk(&chunks, position) {
            Some(i) => {
                proof {
                    lemma_chunk_at_is_unique(before, i as int, p);
                }
                chunks[i].set_voxel(local_of(x), local_of(y), local_of(z), voxel_type);
            },
            None => {
                assert(!before.has_chunk(p)) by {
                    if before.has_chunk(p) {
                        let k = before.chunk_index(p);
                        assert(before.chunks[k] == chunks@[k]@);
                    }
                }
                let mut chunk = Chunk::new(position);
                chunk.set_voxel(local_of(x), local_of(y), local_of(z), voxel_type);
                chunks.push(chunk);
            },
        }
        proof {
            assert(after.chunks =~= Seq::new(chunks@.len(), |j: int| chunks@[j]@));
            lemma_write_keeps_wf(before, x as int, y as int, z as int, voxel_type);
            assert forall|a: int, b: int, c: int| #[trigger]
                after.voxel_at(a, b, c) == if (a, b, c) == (x as int, y as int, z as int) {
                    voxel_type
                } else {
                    before.voxel_at(a, b, c)
                } by {
                lemma_world_write_then_read(
                    before,
                    x as int,
                    y as int,
                    z as int,
                    voxel_type,
                    a,
                    b,
                    c,
                );
            }
        }
        core::mem::swap(&mut self.chunks, &mut chunks);
    }
}

/// In a well-formed world the chunk at a position is the only one there.
pub proof fn lemma_chunk_at_is_unique(world: WorldView, i: int, p: (int, int, int))
    requires
        world.wf(),
        world.is_chunk_at(i, p),
    ensures
        world.has_chunk(p),
        world.chunk_index(p) == i,
{
    let k = world.chunk_index(p);
    assert(world.is_chunk_at(k, p));
    if k < i {
        assert(world.chunks[k].position != world.chunks[i].position);
    } else if i < k {
        assert(world.chunks[i].position != world.chunks[k].position);
    }
}

/// A cell of a chunk of a well-formed world is the voxel of the world at
/// the cell's world position.
pub proof fn lemma_chunk_cell_is_world_voxel(world: WorldView, i: int, x: int, y: int, z: int)
    requires
        world.wf(),
        0 <= i < world.chunks.len(),
        in_chunk(x, y, z),
    ensures
        world.chunks[i].voxel(x, y, z) == world.voxel_at(
            16 * world.chunks[i].position.0 + x,
            16 * world.chunks[i].position.1 + y,
            16 * world.chunks[i].position.2 + z,
        ),
{
    let p = world.chunks[i].position;
    assert(world.is_chunk_at(i, p));
    lemma_chunk_at_is_unique(world, i, p);
}

/// A write into a well-formed world leaves it well-formed.
pub proof fn lemma_write_keeps_wf(world: WorldView, x: int, y: int, z: int, t: VoxelType)
    requires
        world.wf(),
    ensures
        world.with_voxel(x, y, z, t).wf(),
{
    let p = chunk_position(x, y, z);
    let after = world.with_voxel(x, y, z, t);
    if world.has_chunk(p) {
        let i = world.chunk_index(p);
        assert(world.is_chunk_at(i, p));
        assert forall|a: int, b: int| 0 <= a < b < after.chunks.len() implies (
        #[trigger] after.chunks[a]).position != (#[trigger] after.chunks[b]).position by {
            assert(after.chunks[a].position == world.chunks[a].position);
            assert(after.chunks[b].position == world.chunks[b].position);
        }
        assert forall|a: int| 0 <= a < after.chunks.len() implies (#[trigger] after.chunks[a]).wf() by {
            assert(world.chunks[a].wf());
        }
    } else {
        assert forall|a: int, b: int| 0 <= a < b < after.chunks.len() implies (
        #[trigger] after.chunks[a]).position != (#[trigger] after.chunks[b]).position by {
            if b == world.chunks.len() {
                assert(!world.is_chunk_at(a, p));
            } else {
                assert(after.chunks[a].position == world.chunks[a].position);
                assert(after.chunks[b].position == world.chunks[b].position);
            }
        }
        assert forall|a: int| 0 <= a < after.chunks.len() implies (#[trigger] after.chunks[a]).wf() by {
            if a < world.chunks.len() {
                assert(world.chunks[a].wf());
            }
        }
    }
}

/// A voxel written into a world is read back from the same position, on
/// either side of a chunk boundary and for negative coordinates as well, and
/// every other position reads as it did before the write.
pub proof fn lemma_world_write_then_read(
    world: WorldView,
    x: int,
    y: int,
    z: int,
    t: VoxelType,
    a: int,
    b: int,
    c: int,
)
    requires
        world.wf(),
    ensures
        world.with_voxel(x, y, z, t).voxel_at(a, b, c) == if (a, b, c) == (x, y, z) {
            t
        } else {
            world.voxel_at(a, b, c)
        },
{
    let p = chunk_position(x, y, z);
    let q = chunk_position(a, b, c);
    let after = world.with_voxel(x, y, z, t);
    lemma_write_keeps_wf(world, x, y, z, t);
    if world.has_chunk(p) {
        let i = world.chunk_index(p);
        assert(world.is_chunk_at(i, p));
        assert(world.chunks[i].wf());
        if world.has_chunk(q) {
            let k = world.chunk_index(q);
            assert(world.is_chunk_at(k, q));
            assert(after.is_chunk_at(k, q));
            lemma_chunk_at_is_unique(after, k, q);
            lemma_chunk_at_is_unique(world, k, q);
        } else {
            if after.has_chunk(q) {
                let k = after.chunk_index(q);
                assert(after.is_chunk_at(k, q));
                assert(world.is_chunk_at(k, q));
            }
        }
    } else {
        let n = world.chunks.len() as int;
        assert(after.is_chunk_at(n, p));
        lemma_chunk_at_is_unique(after, n, p);
        if q != p {
            if world.has_chunk(q) {
                let k = world.chunk_index(q);
                assert(world.is_chunk_at(k, q));
                assert(after.is_chunk_at(k, q));
                lemma_chunk_at_is_unique(after, k, q);
            } else {
                if after.has_chunk(q) {
                    let k = after.chunk_index(q);
                    assert(after.is_chunk_at(k, q));
                    assert(world.is_chunk_at(k, q));
                }
            }
        }
    }
}

/// The starting world is well-formed: nine full chunks at nine positions.
pub proof fn lemma_starting_world_is_wf()
    ensures
        starting_world().wf(),
        starting_world().chunks.len() == 9,
        forall|i: int|
            0 <= i < 9 ==> (#[trigger] starting_world().chunks[i]).position == (
                i / 3 - 1,
                0int,
                i % 3 - 1,
            ),
{
}

/// Every voxel of the starting world over the nine chunks is what the
/// terrain has there, and the starting world holds nothing else.
pub proof fn lemma_starting_world_voxels(x: int, y: int, z: int)
    ensures
        starting_world().voxel_at(x, y, z) == if in_grid(x) && 0 <= y < 16 && in_grid(z) {
            terrain_voxel(x, y, z)
        } else {
            VoxelType::Air
        },
{
    let world = starting_world();
    let p = chunk_position(x, y, z);
    lemma_starting_world_is_wf();
    if in_grid(x) && 0 <= y < 16 && in_grid(z) {
        let i = (p.0 + 1) * 3 + (p.2 + 1);
        assert(world.is_chunk_at(i, p));
        lemma_chunk_at_is_unique(world, i, p);
        lemma_terrain_chunk_voxel(p, local_coord(x), local_coord(y), local_coord(z));
    } else {
        if world.has_chunk(p) {
            let i = world.chunk_index(p);
            assert(world.is_chunk_at(i, p));
        }
    }
}

/// In every column of the starting world the topmost solid voxel is grass
/// and lies between layers 2 and 5; the two voxels under it are dirt, the
/// voxels from there down to layer 0 are stone, and all the rest of the
/// column, above the grass and below layer 0, is air.
pub proof fn lemma_starting_world_is_layered(x: int, y: int, z: int)
    requires
        in_grid(x),
        in_grid(z),
    ensures
        2 <= surface_height(x, z) <= 5,
        starting_world().voxel_at(x, y, z) == if y > surface_height(x, z) || y < 0 {
            VoxelType::Air
        } else if y == surface_height(x, z) {
            VoxelType::Grass
        } else if y >= surface_height(x, z) - 2 {
            VoxelType::Dirt
        } else {
            VoxelType::Stone
        },
{
    lemma_starting_world_voxels(x, y, z);
    lemma_column_is_layered(x, z, y);
}

} // verus!
