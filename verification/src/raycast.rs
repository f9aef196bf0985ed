//! Editing the world along a ray.
//!
//! A ray is given as the sequence of voxel positions that it passes through,
//! from the eye outwards; a position may occur several times in a row. Only
//! positions over the grid of 3 x 3 chunks around the origin take part: the
//! others are passed over as if they were not in the sequence.

use vstd::prelude::*;
use crate::coords::{as_position, chunk_coord, chunk_of};
use crate::voxel::VoxelType;
use crate::world::{World, WorldView};

verus! {

/// Whether a world position lies over the chunks from -1 to 1 along x and z.
pub open spec fn in_reach(p: (i32, i32, i32)) -> bool {
    -1 <= chunk_coord(p.0 as int) <= 1 && -1 <= chunk_coord(p.2 as int) <= 1
}

/// The kind of the voxel of `world` at position `p`.
pub open spec fn voxel_of(world: WorldView, p: (i32, i32, i32)) -> VoxelType {
    world.voxel_at(p.0 as int, p.1 as int, p.2 as int)
}

/// `world` after a write of `t` at position `p`.
pub open spec fn written(world: WorldView, p: (i32, i32, i32), t: VoxelType) -> WorldView {
    world.with_voxel(p.0 as int, p.1 as int, p.2 as int, t)
}

/// Whether `p` is in reach and holds a solid voxel.
pub open spec fn is_solid_at(world: WorldView, p: (i32, i32, i32)) -> bool {
    in_reach(p) && voxel_of(world, p) != VoxelType::Air
}

/// Whether `p` is in reach and holds `Air`.
pub open spec fn is_empty_at(world: WorldView, p: (i32, i32, i32)) -> bool {
    in_reach(p) && voxel_of(world, p) == VoxelType::Air
}

/// Whether sample `i` is the first of the ray that is solid.
pub open spec fn is_first_solid(world: WorldView, samples: Seq<(i32, i32, i32)>, i: int) -> bool {
    &&& 0 <= i < samples.len()
    &&& is_solid_at(world, samples[i])
    &&& forall|j: int| 0 <= j < i ==> !is_solid_at(world, #[trigger] samples[j])
}

/// The first sample of the ray that is solid, if there is one.
pub open spec fn first_solid(world: WorldView, samples: Seq<(i32, i32, i32)>) -> Option<int> {
    if exists|i: int| is_first_solid(world, samples, i) {
        Some(choose|i: int| is_first_solid(world, samples, i))
    } else {
        None
    }
}

/// Among the first `n` samples of the ray, the last one that is empty.
pub open spec fn last_empty(world: WorldView, samples: Seq<(i32, i32, i32)>, n: int) -> Option<int>
    decreases n,
{
    if n <= 0 {
        None
    } else if is_empty_at(world, samples[n - 1]) {
        Some(n - 1)
    } else {
        last_empty(world, samples, n - 1)
    }
}

/// Whether sample `i` is solid and comes after an empty sample.
pub open spec fn is_landing(world: WorldView, samples: Seq<(i32, i32, i32)>, i: int) -> bool {
    &&& 0 <= i < samples.len()
    &&& is_solid_at(world, samples[i])
    &&& last_empty(world, samples, i) is Some
}

/// Whether sample `i` is the first solid sample that comes after an empty one.
pub open spec fn is_first_landing(world: WorldView, samples: Seq<(i32, i32, i32)>, i: int) -> bool {
    &&& is_landing(world, samples, i)
    &&& forall|j: int| 0 <= j < i ==> !is_landing(world, samples, j)
}

/// The sample at which a block is placed: the last empty sample before the
/// first solid sample that has an empty one before it. There is none where
/// the ray meets no solid voxel after an empty one.
pub open spec fn placement(world: WorldView, samples: Seq<(i32, i32, i32)>) -> Option<int> {
    if exists|i: int| is_first_landing(world, samples, i) {
        last_empty(world, samples, choose|i: int| is_first_landing(world, samples, i))
    } else {
        None
    }
}

/// The first solid sample is the only one that has no solid sample before it.
pub proof fn lemma_first_solid_is_unique(world: WorldView, samples: Seq<(i32, i32, i32)>, i: int)
    requires
        is_first_solid(world, samples, i),
    ensures
        first_solid(world, samples) == Some(i),
{
    let k = choose|k: int| is_first_solid(world, samples, k);
    assert(is_first_solid(world, samples, k));
    if k < i {
        assert(!is_solid_at(world, samples[k]));
    } else if i < k {
        assert(!is_solid_at(world, samples[i]));
    }
}

/// The first landing is the only landing that has no landing before it.
pub proof fn lemma_first_landing_is_unique(world: WorldView, samples: Seq<(i32, i32, i32)>, i: int)
    requires
        is_first_landing(world, samples, i),
    ensures
        placement(world, samples) == last_empty(world, samples, i),
{
    let k = choose|k: int| is_first_landing(world, samples, k);
    assert(is_first_landing(world, samples, k));
    if k < i {
        assert(!is_landing(world, samples, k));
    } else if i < k {
        assert(!is_landing(world, samples, i));
    }
}

/// The last empty sample among the first `n` is empty, lies among them, and
/// no empty sample lies between it and `n`; there is none exactly when none of
/// the first `n` samples is empty.
pub proof fn lemma_last_empty_is_last(world: WorldView, samples: Seq<(i32, i32, i32)>, n: int)
    requires
        0 <= n <= samples.len(),
    ensures
        match last_empty(world, samples, n) {
            Some(j) => {
                &&& 0 <= j < n
                &&& is_empty_at(world, samples[j])
                &&& forall|k: int| j < k < n ==> !is_empty_at(world, #[trigger] samples[k])
            },
            None => forall|k: int| 0 <= k < n ==> !is_empty_at(world, #[trigger] samples[k]),
        },
    decreases n,
{
    if n > 0 && !is_empty_at(world, samples[n - 1]) {
        lemma_last_empty_is_last(world, samples, n - 1);
    }
}

/// A ray that meets no solid voxel breaks nothing and places nothing.
pub proof fn lemma_open_sky_edits_nothing(world: WorldView, samples: Seq<(i32, i32, i32)>)
    requires
        forall|i: int| 0 <= i < samples.len() ==> !is_solid_at(world, #[trigger] samples[i]),
    ensures
        first_solid(world, samples) is None,
        placement(world, samples) is None,
{
    if exists|i: int| is_first_solid(world, samples, i) {
        let i = choose|i: int| is_first_solid(world, samples, i);
        assert(is_solid_at(world, samples[i]));
    }
    if exists|i: int| is_first_landing(world, samples, i) {
        let i = choose|i: int| is_first_landing(world, samples, i);
        assert(is_solid_at(world, samples[i]));
    }
}

/// A button of the mouse.
#[derive(Clone, Copy, Debug, PartialEq, Eq, Structural)]
pub enum MouseButton {
    Left,
    Right,
    Other,
}

/// An edit of the world along the ray of sight.
#[derive(Clone, Copy, Debug, PartialEq, Eq, Structural)]
pub enum EditAction {
    /// Remove the first solid voxel.
    Break,
    /// Put a voxel in front of the first solid voxel.
    Place,
}

/// The edit that a press of `button` asks for. While the mouse is not
/// captured no press edits the world; while it is, the left button breaks and
/// the right button places.
pub open spec fn action_of(button: MouseButton, captured: bool) -> Option<EditAction> {
    if !captured {
        None
    } else {
        match button {
            MouseButton::Left => Some(EditAction::Break),
            MouseButton::Right => Some(EditAction::Place),
            MouseButton::Other => None,
        }
    }
}

/// The world after an edit along the ray, and the position that the edit
/// changed, if it changed one.
pub open spec fn edited(
    world: WorldView,
    action: EditAction,
    samples: Seq<(i32, i32, i32)>,
    selected: VoxelType,
) -> (WorldView, Option<(i32, i32, i32)>) {
    match action {
        EditAction::Break => match first_solid(world, samples) {
            Some(i) => (written(world, samples[i], VoxelType::Air), Some(samples[i])),
            None => (world, None),
        },
        EditAction::Place => match placement(world, samples) {
            Some(j) => (written(world, samples[j], selected), Some(samples[j])),
            None => (world, None),
        },
    }
}

/// Tells which edit a press of `button` asks for.
pub fn action_for(button: MouseButton, captured: bool) -> (action: Option<EditAction>)
    ensures
        action == action_of(button, captured),
{
    if !captured {
        return None;
    }
    match button {
        MouseButton::Left => Some(EditAction::Break),
        MouseButton::Right => Some(EditAction::Place),
        MouseButton::Other => None,
    }
}

/// Tells whether a world position lies over the chunks from -1 to 1 along x
/// and z.
pub fn is_in_reach(p: (i32, i32, i32)) -> (b: bool)
    ensures
        b == in_reach(p),
{
    let chunk_x: i32 = chunk_of(p.0);
    let chunk_z: i32 = chunk_of(p.2);
    chunk_x >= -1 && chunk_x <= 1 && chunk_z >= -1 && chunk_z <= 1
}

/// Removes the first solid voxel that the ray meets, and tells where it was.
/// The march stops there: whatever lies behind stays. A ray that meets no
/// solid voxel leaves the world as it is.
pub fn break_block(world: &mut World, samples: &Vec<(i32, i32, i32)>) -> (hit: Option<
    (i32, i32, i32),
>)
    ensures
        final(world)@.wf(),
        match first_solid(old(world)@, samples@) {
            Some(i) => hit == Some(samples@[i]) && final(world)@ == written(
                old(world)@,
                samples@[i],
                VoxelType::Air,
            ),
            None => hit is None && final(world)@ == old(world)@,
        },
        hit matches Some(p) ==> is_solid_at(old(world)@, p),
        forall|a: int, b: int, c: int| #[trigger]
            final(world)@.voxel_at(a, b, c) == if hit matches Some(p) && as_position(p) == (
                a,
                b,
                c,
            ) {
                VoxelType::Air
            } else {
                old(world)@.voxel_at(a, b, c)
            },
{
    let ghost before = world@;
    let mut i: usize = 0;
    while i < samples.len()
        invariant
            i <= samples.len(),
            world@ == before,
            before == old(world)@,
            forall|j: int| 0 <= j < i ==> !is_solid_at(before, #[trigger] samples@[j]),
        decreases samples.len() - i,
    {
        let p = samples[i];
        if is_in_reach(p) && world.get_voxel(p.0, p.1, p.2).is_solid() {
            proof {
                lemma_first_solid_is_unique(before, samples@, i as int);
            }
            world.set_voxel(p.0, p.1, p.2, VoxelType::Air);
            return Some(p);
        }
        i += 1;
    }
    proof {
        use_type_invariant(&*world);
        if exists|k: int| is_first_solid(before, samples@, k) {
            let k = choose|k: int| is_first_solid(before, samples@, k);
            assert(is_solid_at(before, samples@[k]));
        }
    }
    None
}

/// Places a voxel of kind `selected` in front of the first solid voxel that
/// the ray meets after an empty one: at the last empty position before it.
/// Tells where the voxel was placed. A ray that meets no such solid voxel
/// leaves the world as it is.
pub fn place_block(
    world: &mut World,
    samples: &Vec<(i32, i32, i32)>,
    selected: VoxelType,
) -> (placed: Option<(i32, i32, i32)>)
    ensures
        final(world)@.wf(),
        match placement(old(world)@, samples@) {
            Some(j) => placed == Some(samples@[j]) && final(world)@ == written(
                old(world)@,
                samples@[j],
                selected,
            ),
            None => placed is None && final(world)@ == old(world)@,
        },
        placed matches Some(p) ==> is_empty_at(old(world)@, p),
        forall|a: int, b: int, c: int| #[trigger]
            final(world)@.voxel_at(a, b, c) == if placed matches Some(p) && as_position(p) == (
                a,
                b,
                c,
            ) {
                selected
            } else {
                old(world)@.voxel_at(a, b, c)
            },
{
    let ghost before = world@;
    let mut last_empty_pos: Option<(i32, i32, i32)> = None;
    let mut i: usize = 0;
    while i < samples.len()
        invariant
            i <= samples.len(),
            world@ == before,
            before == old(world)@,
            forall|j: int| 0 <= j < i ==> !is_landing(before, samples@, j),
            match last_empty(before, samples@, i as int) {
                Some(j) => 0 <= j < i && last_empty_pos == Some(samples@[j]),
                None => last_empty_pos is None,
            },
        decreases samples.len() - i,
    {
        let p = samples[i];
        if is_in_reach(p) {
            if world.get_voxel(p.0, p.1, p.2).is_solid() {
                if let Some(e) = last_empty_pos {
                    proof {
                        lemma_first_landing_is_unique(before, samples@, i as int);
                        lemma_last_empty_is_last(before, samples@, i as int);
                    }
                    world.set_voxel(e.0, e.1, e.2, selected);
                    return Some(e);
                }
            } else {
                last_empty_pos = Some(p);
            }
        }
        i += 1;
    }
    proof {
        use_type_invariant(&*world);
        if exists|k: int| is_first_landing(before, samples@, k) {
            let k = choose|k: int| is_first_landing(before, samples@, k);
            assert(is_landing(before, samples@, k));
        }
    }
    None
}

/// Carries out one edit along the ray: breaks the first solid voxel, or
/// places a voxel of kind `selected` in front of it. Tells which position
/// changed; with `None` the world is as it was.
pub fn apply_edit(
    world: &mut World,
    action: EditAction,
    samples: &Vec<(i32, i32, i32)>,
    selected: VoxelType,
) -> (changed: Option<(i32, i32, i32)>)
    ensures
        final(world)@.wf(),
        (final(world)@, changed) == edited(old(world)@, action, samples@, selected),
{
    match action {
        EditAction::Break => break_block(world, samples),
        EditAction::Place => place_block(world, samples, selected),
    }
}

} // verus!
