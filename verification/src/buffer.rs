//! The world laid out as one flat sequence of voxel codes, in the form in
//! which a shader reads it: a grid of 3 x 3 chunk slots in one layer.

use vstd::prelude::*;
use crate::chunk::ChunkView;
use crate::coords::{chunk_coord, chunk_position, local_coord, CHUNK_VOLUME};
use crate::terrain::{in_grid, terrain_voxel};
use crate::voxel::VoxelType;
use crate::world::{
    lemma_chunk_at_is_unique, lemma_chunk_cell_is_world_voxel, lemma_starting_world_is_wf,
    lemma_starting_world_voxels, starting_world, World, WorldView,
};

verus! {

/// Length of the flattened buffer: nine slots of one chunk each.
pub const BUFFER_LEN: usize = 36864;

/// The slot of the flattened buffer that a chunk at position `p` fills:
/// `(p.0 + 1) + (p.2 + 1) * 3` for x and z from -1 to 1, whatever the
/// chunk's y. A chunk outside that range has no slot.
pub open spec fn buffer_slot(p: (int, int, int)) -> Option<int> {
    if -1 <= p.0 <= 1 && -1 <= p.2 <= 1 {
        Some((p.0 + 1) + (p.2 + 1) * 3)
    } else {
        None
    }
}

/// The code of the cell that a chunk puts at place `l` of its slot: the
/// cell at local `(x, y, z)` stands at `l = x + y * 16 + z * 256`.
pub open spec fn slot_code(chunk: ChunkView, l: int) -> int {
    chunk.voxel(l % 16, (l / 16) % 16, l / 256).spec_code()
}

/// The place of the voxel at world `(x, y, z)` in the flattened buffer, for
/// a position over the grid of 3 x 3 chunks and a `y` from 0 to 15.
pub open spec fn buffer_index(x: int, y: int, z: int) -> int {
    ((chunk_coord(x) + 1) + (chunk_coord(z) + 1) * 3) * 4096 + local_coord(x) + y * 16
        + local_coord(z) * 256
}

impl WorldView {
    /// Whether all chunks of the world lie in the layer `y = 0`.
    pub open spec fn is_single_layer(self) -> bool {
        forall|i: int| 0 <= i < self.chunks.len() ==> (#[trigger] self.chunks[i]).position.1 == 0
    }

    /// Among the first `n` chunks of the collection, the last one that
    /// fills `slot` of the flattened buffer.
    pub open spec fn slot_owner(self, slot: int, n: int) -> Option<int>
        decreases n,
    {
        if n <= 0 {
            None
        } else if buffer_slot(self.chunks[n - 1].position) == Some(slot) {
            Some(n - 1)
        } else {
            self.slot_owner(slot, n - 1)
        }
    }

    /// What stands at place `k` of the flattened buffer once the first `n`
    /// chunks of the collection are written into it: the code of a cell of
    /// the last chunk that fills the slot of `k`, or 0 where no chunk does.
    pub open spec fn buffer_code(self, k: int, n: int) -> int {
        match self.slot_owner(k / 4096, n) {
            Some(i) => slot_code(self.chunks[i], k % 4096),
            None => 0,
        }
    }

    /// The flattened buffer of this world: nine slots of 4096 codes.
    pub open spec fn gpu_buffer(self) -> Seq<i32> {
        Seq::new(36864, |k: int| self.buffer_code(k, self.chunks.len() as int) as i32)
    }
}

impl World {
    /// Lays the world out as one flat sequence of voxel codes, nine slots of
    /// 4096 codes each. The chunk at `(px, py, pz)`, for `px` and `pz` from -1
    /// to 1, fills slot `(px + 1) + (pz + 1) * 3`; within its slot the cell at
    /// local `(x, y, z)` stands at `x + y * 16 + z * 256`. Where several
    /// chunks fill one slot, the one added last is seen; a slot that no chunk
    /// fills holds zeros, and a chunk outside the range is left out.
    pub fn to_gpu_buffer(&self) -> (buffer: Vec<i32>)
        ensures
            buffer@.len() == 9 * 4096,
            buffer@ == self@.gpu_buffer(),
    {
        let mut buffer: Vec<i32> = Vec::with_capacity(BUFFER_LEN);
        buffer.resize(BUFFER_LEN, 0);
        let count: usize = self.chunk_count();
        let mut n: usize = 0;
        while n < count
            invariant
                n <= count,
                count == self@.chunks.len(),
                buffer@.len() == 36864,
                forall|k: int|
                    0 <= k < 36864 ==> #[trigger] buffer@[k] == self@.buffer_code(k, n as int),
            decreases count - n,
        {
            if let Some(chunk) = self.chunk(n) {
                let position = chunk.position();
                if -1 <= position.0 && position.0 <= 1 && -1 <= position.2 && position.2 <= 1 {
                    let slot: usize = (position.0 + 1) as usize + (position.2 + 1) as usize * 3;
                    let base: usize = slot * CHUNK_VOLUME;
                    let mut l: usize = 0;
                    while l < CHUNK_VOLUME
                        invariant
                            l <= 4096,
                            n < self@.chunks.len(),
                            chunk@ == self@.chunks[n as int],
                            buffer_slot(chunk@.position) == Some(slot as int),
                            slot < 9,
                            base == slot * 4096,
                            buffer@.len() == 36864,
                            forall|k: int|
                                0 <= k < 36864 ==> #[trigger] buffer@[k] == if base <= k < base
                                    + l {
                                    slot_code(chunk@, k - base)
                                } else {
                                    self@.buffer_code(k, n as int)
                                },
                        decreases 4096 - l,
                    {
                        let code: i32 = chunk.get_voxel(l % 16, (l / 16) % 16, l / 256).code();
                        buffer.set(base + l, code);
                        l += 1;
                    }
                }
            }
            n += 1;
        }
        assert(buffer@ =~= self@.gpu_buffer());
        buffer
    }
}

/// The owner of a slot among the first `n` chunks is the last of them that
/// fills the slot; there is none exactly when none of them fills it.
pub proof fn lemma_slot_owner_is_last(world: WorldView, slot: int, n: int)
    requires
        0 <= n <= world.chunks.len(),
    ensures
        match world.slot_owner(slot, n) {
            Some(i) => {
                &&& 0 <= i < n
                &&& buffer_slot(world.chunks[i].position) == Some(slot)
                &&& forall|j: int|
                    i < j < n ==> buffer_slot((#[trigger] world.chunks[j]).position) != Some(slot)
            },
            None => forall|j: int|
                0 <= j < n ==> buffer_slot((#[trigger] world.chunks[j]).position) != Some(slot),
        },
    decreases n,
{
    if n > 0 && buffer_slot(world.chunks[n - 1].position) != Some(slot) {
        lemma_slot_owner_is_last(world, slot, n - 1);
    }
}

/// The flattened buffer has 9 x 4096 places, and for a world in which every
/// voxel is `Air`, each of them holds 0.
pub proof fn lemma_air_world_buffer_is_zero(world: WorldView)
    requires
        world.wf(),
        forall|x: int, y: int, z: int| #[trigger] world.voxel_at(x, y, z) == VoxelType::Air,
    ensures
        world.gpu_buffer().len() == 9 * 4096,
        forall|k: int| 0 <= k < 9 * 4096 ==> #[trigger] world.gpu_buffer()[k] == 0,
{
    assert forall|k: int| 0 <= k < 9 * 4096 implies #[trigger] world.gpu_buffer()[k] == 0 by {
        let n = world.chunks.len() as int;
        lemma_slot_owner_is_last(world, k / 4096, n);
        match world.slot_owner(k / 4096, n) {
            Some(i) => {
                let l = k % 4096;
                lemma_chunk_cell_is_world_voxel(world, i, l % 16, (l / 16) % 16, l / 256);
            },
            None => {},
        }
    }
}

/// Of a world whose chunks all lie in the layer `y = 0`, the flattened
/// buffer shows every voxel over the grid of 3 x 3 chunks at its place.
pub proof fn lemma_buffer_shows_the_world(world: WorldView, x: int, y: int, z: int)
    requires
        world.wf(),
        world.is_single_layer(),
        in_grid(x),
        in_grid(z),
        0 <= y < 16,
    ensures
        0 <= buffer_index(x, y, z) < 9 * 4096,
        world.gpu_buffer()[buffer_index(x, y, z)] == world.voxel_at(x, y, z).spec_code(),
{
    let p = chunk_position(x, y, z);
    let slot = (p.0 + 1) + (p.2 + 1) * 3;
    let l = local_coord(x) + y * 16 + local_coord(z) * 256;
    let k = buffer_index(x, y, z);
    let n = world.chunks.len() as int;
    assert(k == slot * 4096 + l);
    assert(0 <= l < 4096);
    assert(k / 4096 == slot && k % 4096 == l);
    assert(l % 16 == local_coord(x) && (l / 16) % 16 == y && l / 256 == local_coord(z));
    assert(buffer_slot(p) == Some(slot));
    lemma_slot_owner_is_last(world, slot, n);
    match world.slot_owner(slot, n) {
        Some(i) => {
            assert(world.chunks[i].position == p);
            assert(world.is_chunk_at(i, p));
            lemma_chunk_at_is_unique(world, i, p);
        },
        None => {
            if world.has_chunk(p) {
                let i = world.chunk_index(p);
                assert(world.is_chunk_at(i, p));
                assert(buffer_slot(world.chunks[i].position) == Some(slot));
            }
        },
    }
}

/// The flattened buffer of the starting world shows the generated terrain.
pub proof fn lemma_starting_buffer_shows_the_terrain(x: int, y: int, z: int)
    requires
        in_grid(x),
        in_grid(z),
        0 <= y < 16,
    ensures
        starting_world().gpu_buffer()[buffer_index(x, y, z)] == terrain_voxel(x, y, z).spec_code(),
{
    lemma_starting_world_is_wf();
    assert(starting_world().is_single_layer());
    lemma_buffer_shows_the_world(starting_world(), x, y, z);
    lemma_starting_world_voxels(x, y, z);
}

} // verus!
