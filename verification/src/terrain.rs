//! The terrain of the starting world.
//!
//! The ground rises and falls with a sine along x and a cosine along z, both
//! of amplitude one and of argument a tenth of the world coordinate, around a
//! mean height of four. The two waves are tabulated in millionths over the
//! columns that the starting world covers, so that the height of a column is
//! a matter of integers alone.

use vstd::prelude::*;
use crate::chunk::{lemma_chunk_write_then_read, Chunk, ChunkView};
use crate::coords::{cell_x, cell_y, cell_z, in_chunk, lemma_cell_coords, CHUNK_SIZE};
use crate::voxel::VoxelType;

verus! {

/// The sine of `n / 10`, in millionths, for `0 <= n < 32`.
pub const SINE_MILLIONTHS: [i32; 32] = [
    0, 99833, 198669, 295520, 389418, 479426, 564642, 644218,
    717356, 783327, 841471, 891207, 932039, 963558, 985450, 997495,
    999574, 991665, 973848, 946300, 909297, 863209, 808496, 745705,
    675463, 598472, 515501, 427380, 334988, 239249, 141120, 41581,
];

/// The cosine of `n / 10`, in millionths, for `0 <= n < 32`.
pub const COSINE_MILLIONTHS: [i32; 32] = [
    1000000, 995004, 980067, 955336, 921061, 877583, 825336, 764842,
    696707, 621610, 540302, 453596, 362358, 267499, 169967, 70737,
    -29200, -128844, -227202, -323290, -416147, -504846, -588501, -666276,
    -737394, -801144, -856889, -904072, -942222, -970958, -989992, -999135,
];

/// Whether a world coordinate along x or z lies in the starting world,
/// which spans the chunks -1, 0 and 1 on both axes.
pub open spec fn in_grid(w: int) -> bool {
    -16 <= w < 32
}

/// The sine wave at world coordinate `n`, in millionths: odd in `n`.
pub open spec fn sine_millionths(n: int) -> int {
    if 0 <= n < 32 {
        SINE_MILLIONTHS@[n] as int
    } else if -32 < n < 0 {
        -(SINE_MILLIONTHS@[-n] as int)
    } else {
        0
    }
}

/// The cosine wave at world coordinate `n`, in millionths: even in `n`.
pub open spec fn cosine_millionths(n: int) -> int {
    if 0 <= n < 32 {
        COSINE_MILLIONTHS@[n] as int
    } else if -32 < n < 0 {
        COSINE_MILLIONTHS@[-n] as int
    } else {
        0
    }
}

/// The height of the ground in the column at world `(wx, wz)`, in
/// millionths: four, plus the sine wave along x, plus the cosine wave along z.
pub open spec fn height_millionths(wx: int, wz: int) -> int {
    4_000_000 + sine_millionths(wx) + cosine_millionths(wz)
}

/// The highest layer of the column at world `(wx, wz)` that is not above the
/// ground: the floor of the column's height.
pub open spec fn surface_height(wx: int, wz: int) -> int {
    height_millionths(wx, wz) / 1_000_000
}

/// What fills layer `y` of a column whose highest solid layer is `surface`:
/// nothing above it, grass in the layer itself, dirt in the two layers below,
/// stone under those.
pub open spec fn layer(y: int, surface: int) -> VoxelType {
    if y > surface {
        VoxelType::Air
    } else if y > surface - 1 {
        VoxelType::Grass
    } else if y > surface - 3 {
        VoxelType::Dirt
    } else {
        VoxelType::Stone
    }
}

/// The kind of the voxel at world `(wx, y, wz)` of the generated terrain.
pub open spec fn terrain_voxel(wx: int, y: int, wz: int) -> VoxelType {
    layer(y, surface_height(wx, wz))
}

/// The chunk of generated terrain at chunk position `p`: the cell at local
/// `(x, y, z)` holds what the terrain has in layer `y` of the column at
/// world `(16 * p.0 + x, 16 * p.2 + z)`.
pub open spec fn terrain_chunk(p: (int, int, int)) -> ChunkView {
    ChunkView {
        position: p,
        cells: Seq::new(
            4096,
            |k: int| terrain_voxel(16 * p.0 + cell_x(k), cell_y(k), 16 * p.2 + cell_z(k)),
        ),
    }
}

fn sine_at(n: i32) -> (s: i32)
    requires
        -32 < n < 32,
    ensures
        s == sine_millionths(n as int),
        -999_574 <= s <= 999_574,
{
    if n >= 0 {
        SINE_MILLIONTHS[n as usize]
    } else {
        -SINE_MILLIONTHS[(-n) as usize]
    }
}

fn cosine_at(n: i32) -> (c: i32)
    requires
        -32 < n < 32,
    ensures
        c == cosine_millionths(n as int),
        -1_000_000 <= c <= 1_000_000,
{
    if n >= 0 {
        COSINE_MILLIONTHS[n as usize]
    } else {
        COSINE_MILLIONTHS[(-n) as usize]
    }
}

/// Computes the highest solid layer of the column at world `(wx, wz)`.
/// Every column of the starting world has its surface between layers 2 and 5.
pub fn surface_at(wx: i32, wz: i32) -> (h: i32)
    requires
        in_grid(wx as int),
        in_grid(wz as int),
    ensures
        h == surface_height(wx as int, wz as int),
        2 <= h <= 5,
{
    let total: i32 = 4_000_000 + sine_at(wx) + cosine_at(wz);
    total / 1_000_000
}

/// Computes what fills layer `y` of a column whose highest solid layer is
/// `surface`.
pub fn layer_at(y: i32, surface: i32) -> (t: VoxelType)
    ensures
        t == layer(y as int, surface as int),
{
    let y: i64 = y as i64;
    let surface: i64 = surface as i64;
    if y > surface {
        VoxelType::Air
    } else if y > surface - 1 {
        VoxelType::Grass
    } else if y > surface - 3 {
        VoxelType::Dirt
    } else {
        VoxelType::Stone
    }
}

/// Whether the column at local `(x, z)` comes before the column at local
/// `(cx, cz)` when a chunk is filled x by x and, within one x, z by z.
spec fn column_before(x: int, z: int, cx: int, cz: int) -> bool {
    x < cx || (x == cx && z < cz)
}

/// Builds the chunk of generated terrain at chunk position `(x, 0, z)`, one
/// of the nine chunks of the starting world.
pub fn generate_chunk(x: i32, z: i32) -> (chunk: Chunk)
    requires
        -1 <= x <= 1,
        -1 <= z <= 1,
    ensures
        chunk@ == terrain_chunk((x as int, 0, z as int)),
        chunk@.wf(),
{
    let ghost p = (x as int, 0int, z as int);
    let mut chunk = Chunk::new((x, 0, z));
    let mut cx: usize = 0;
    while cx < CHUNK_SIZE
        invariant
            cx <= 16,
            -1 <= x <= 1,
            -1 <= z <= 1,
            p == (x as int, 0int, z as int),
            chunk@.position == p,
            chunk@.wf(),
            forall|a: int, b: int, c: int|
                in_chunk(a, b, c) ==> #[trigger] chunk@.voxel(a, b, c) == if a < cx {
                    terrain_voxel(16 * x + a, b, 16 * z + c)
                } else {
                    VoxelType::Air
                },
        decreases 16 - cx,
    {
        let mut cz: usize = 0;
        while cz < CHUNK_SIZE
            invariant
                cx < 16,
                cz <= 16,
                -1 <= x <= 1,
                -1 <= z <= 1,
                p == (x as int, 0int, z as int),
                chunk@.position == p,
                chunk@.wf(),
                forall|a: int, b: int, c: int|
                    in_chunk(a, b, c) ==> #[trigger] chunk@.voxel(a, b, c) == if column_before(
                        a,
                        c,
                        cx as int,
                        cz as int,
                    ) {
                        terrain_voxel(16 * x + a, b, 16 * z + c)
                    } else {
                        VoxelType::Air
                    },
            decreases 16 - cz,
        {
            let world_x: i32 = cx as i32 + x * 16;
            let world_z: i32 = cz as i32 + z * 16;
            let height: i32 = surface_at(world_x, world_z);
            let mut cy: usize = 0;
            while cy < CHUNK_SIZE
                invariant
                    cx < 16,
                    cz < 16,
                    cy <= 16,
                    p == (x as int, 0int, z as int),
                    world_x == 16 * x + cx,
                    world_z == 16 * z + cz,
                    height == surface_height(world_x as int, world_z as int),
                    chunk@.position == p,
                    chunk@.wf(),
                    forall|a: int, b: int, c: int|
                        in_chunk(a, b, c) ==> #[trigger] chunk@.voxel(a, b, c) == if column_before(
                            a,
                            c,
                            cx as int,
                            cz as int,
                        ) || (a == cx && c == cz && b < cy) {
                            terrain_voxel(16 * x + a, b, 16 * z + c)
                        } else {
                            VoxelType::Air
                        },
                decreases 16 - cy,
            {
                let ghost before = chunk@;
                if cy as i32 <= height {
                    chunk.set_voxel(cx, cy, cz, layer_at(cy as i32, height));
                }
                proof {
                    let t = layer(cy as int, height as int);
                    assert(before.voxel(cx as int, cy as int, cz as int) == VoxelType::Air);
                    assert(chunk@.cells =~= before.with_voxel(
                        cx as int,
                        cy as int,
                        cz as int,
                        t,
                    ).cells);
                    assert forall|a: int, b: int, c: int| in_chunk(a, b, c) implies #[trigger]
                        chunk@.voxel(a, b, c) == if (a, b, c) == (cx as int, cy as int, cz as int) {
                            t
                        } else {
                            before.voxel(a, b, c)
                        } by {
                        lemma_chunk_write_then_read(
                            before,
                            cx as int,
                            cy as int,
                            cz as int,
                            t,
                            a,
                            b,
                            c,
                        );
                    }
                }
                cy += 1;
            }
            cz += 1;
        }
        cx += 1;
    }
    proof {
        assert forall|k: int| 0 <= k < 4096 implies #[trigger] chunk@.cells[k] == terrain_chunk(
            p,
        ).cells[k] by {
            lemma_cell_coords(k, 0, 0, 0);
            assert(chunk@.cells[k] == chunk@.voxel(cell_x(k), cell_y(k), cell_z(k)));
        }
        assert(chunk@.cells =~= terrain_chunk(p).cells);
    }
    chunk
}

/// Inside a chunk of generated terrain, the cell at local `(x, y, z)` holds
/// what the terrain has at the world position of that cell.
pub proof fn lemma_terrain_chunk_voxel(p: (int, int, int), x: int, y: int, z: int)
    requires
        in_chunk(x, y, z),
    ensures
        terrain_chunk(p).voxel(x, y, z) == terrain_voxel(16 * p.0 + x, y, 16 * p.2 + z),
{
    lemma_cell_coords(0, x, y, z);
}

/// In every column of the starting world the surface lies between layers 2
/// and 5; it is grass, the two layers under it are dirt, all that lies
/// deeper is stone, and above the grass there is nothing.
pub proof fn lemma_column_is_layered(wx: int, wz: int, y: int)
    requires
        in_grid(wx),
        in_grid(wz),
    ensures
        2 <= surface_height(wx, wz) <= 5,
        y > surface_height(wx, wz) ==> terrain_voxel(wx, y, wz) == VoxelType::Air,
        y == surface_height(wx, wz) ==> terrain_voxel(wx, y, wz) == VoxelType::Grass,
        surface_height(wx, wz) - 2 <= y < surface_height(wx, wz) ==> terrain_voxel(wx, y, wz)
            == VoxelType::Dirt,
        y < surface_height(wx, wz) - 2 ==> terrain_voxel(wx, y, wz) == VoxelType::Stone,
{
    assert(-999_574 <= sine_millionths(wx) <= 999_574);
    assert(-1_000_000 <= cosine_millionths(wz) <= 1_000_000);
}

} // verus!
