//! World coordinates, chunk coordinates and local coordinates.
//!
//! A world coordinate splits, axis by axis, into the coordinate of the chunk
//! that holds it and the coordinate inside that chunk. The chunk coordinate is
//! the floor of the world coordinate over the chunk's edge, the local one the
//! remainder that is never negative, so that negative world coordinates fall
//! into chunks with negative coordinates without a gap or an overlap at zero.

use vstd::prelude::*;

verus! {

/// Length of a chunk's edge, in voxels.
pub const CHUNK_SIZE: usize = 16;

/// Number of voxels in one chunk.
pub const CHUNK_VOLUME: usize = 4096;

/// The chunk coordinate of a world coordinate: its floor over 16.
pub open spec fn chunk_coord(w: int) -> int {
    w / 16
}

/// The local coordinate of a world coordinate: its remainder by 16, in `[0, 16)`.
pub open spec fn local_coord(w: int) -> int {
    w % 16
}

/// The chunk position of a world position, axis by axis.
pub open spec fn chunk_position(x: int, y: int, z: int) -> (int, int, int) {
    (chunk_coord(x), chunk_coord(y), chunk_coord(z))
}

/// A position given in machine integers, as mathematical integers.
pub open spec fn as_position(p: (i32, i32, i32)) -> (int, int, int) {
    (p.0 as int, p.1 as int, p.2 as int)
}

/// Whether three local coordinates all lie inside a chunk.
pub open spec fn in_chunk(x: int, y: int, z: int) -> bool {
    0 <= x < 16 && 0 <= y < 16 && 0 <= z < 16
}

/// Where the cell at local `(x, y, z)` stands in a chunk's storage.
pub open spec fn cell_index(x: int, y: int, z: int) -> int {
    y * 256 + z * 16 + x
}

/// The local x of the cell that stands at place `k` of a chunk's storage.
pub open spec fn cell_x(k: int) -> int {
    k % 16
}

/// The local y of the cell that stands at place `k` of a chunk's storage.
pub open spec fn cell_y(k: int) -> int {
    k / 256
}

/// The local z of the cell that stands at place `k` of a chunk's storage.
pub open spec fn cell_z(k: int) -> int {
    (k / 16) % 16
}

/// Computes the chunk coordinate of `w`.
pub fn chunk_of(w: i32) -> (c: i32)
    ensures
        c == chunk_coord(w as int),
{
    if w >= 0 {
        w / 16
    } else {
        (w + 1) / 16 - 1
    }
}

/// Computes the local coordinate of `w`.
pub fn local_of(w: i32) -> (l: usize)
    ensures
        l == local_coord(w as int),
        l < 16,
{
    let c: i32 = chunk_of(w);
    let l: i32 = w - c * 16;
    l as usize
}

/// A world coordinate is sixteen times its chunk coordinate plus its local
/// coordinate, the local coordinate lies in `[0, 16)`, and no other pair with
/// a local part in that range gives the same world coordinate.
pub proof fn lemma_split_is_unique(w: int, c: int, l: int)
    ensures
        w == 16 * chunk_coord(w) + local_coord(w),
        0 <= local_coord(w) < 16,
        (0 <= l < 16 && w == 16 * c + l) ==> (c == chunk_coord(w) && l == local_coord(w)),
{
}

/// Every place of a chunk's storage is the place of exactly one cell: the
/// place gives the cell's coordinates, and the coordinates give the place.
pub proof fn lemma_cell_coords(k: int, x: int, y: int, z: int)
    ensures
        0 <= k < 4096 ==> in_chunk(cell_x(k), cell_y(k), cell_z(k)) && cell_index(
            cell_x(k),
            cell_y(k),
            cell_z(k),
        ) == k,
        in_chunk(x, y, z) ==> 0 <= cell_index(x, y, z) < 4096 && cell_x(cell_index(x, y, z)) == x
            && cell_y(cell_index(x, y, z)) == y && cell_z(cell_index(x, y, z)) == z,
{
}

} // verus!
