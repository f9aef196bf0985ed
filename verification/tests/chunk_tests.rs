use voxel_core::chunk::Chunk;
use voxel_core::coords::{chunk_of, local_of};
use voxel_core::voxel::{Voxel, VoxelType};

const KINDS: [VoxelType; 7] = [
    VoxelType::Air,
    VoxelType::Dirt,
    VoxelType::Grass,
    VoxelType::Stone,
    VoxelType::Wood,
    VoxelType::Leaves,
    VoxelType::Light,
];

#[test]
fn voxel_codes_are_stable() {
    assert_eq!(VoxelType::Air.code(), 0);
    assert_eq!(VoxelType::Dirt.code(), 1);
    assert_eq!(VoxelType::Grass.code(), 2);
    assert_eq!(VoxelType::Stone.code(), 3);
    assert_eq!(VoxelType::Wood.code(), 4);
    assert_eq!(VoxelType::Leaves.code(), 5);
    assert_eq!(VoxelType::Light.code(), 6);
}

#[test]
fn only_air_is_not_solid() {
    for kind in KINDS {
        assert_eq!(kind.is_solid(), kind != VoxelType::Air);
    }
}

#[test]
fn voxel_is_a_plain_value() {
    let a = Voxel { voxel_type: VoxelType::Wood };
    let b = a;
    assert_eq!(a, b);
    assert_ne!(a, Voxel { voxel_type: VoxelType::Leaves });
}

#[test]
fn chunk_coordinate_is_floor_division() {
    assert_eq!(chunk_of(0), 0);
    assert_eq!(chunk_of(15), 0);
    assert_eq!(chunk_of(16), 1);
    assert_eq!(chunk_of(31), 1);
    assert_eq!(chunk_of(32), 2);
    assert_eq!(chunk_of(-1), -1);
    assert_eq!(chunk_of(-16), -1);
    assert_eq!(chunk_of(-17), -2);
    assert_eq!(chunk_of(-32), -2);
    assert_eq!(chunk_of(-33), -3);
    assert_eq!(chunk_of(i32::MAX), 134_217_727);
    assert_eq!(chunk_of(i32::MIN), -134_217_728);
}

#[test]
fn local_coordinate_is_never_negative() {
    assert_eq!(local_of(0), 0);
    assert_eq!(local_of(15), 15);
    assert_eq!(local_of(16), 0);
    assert_eq!(local_of(17), 1);
    assert_eq!(local_of(-1), 15);
    assert_eq!(local_of(-15), 1);
    assert_eq!(local_of(-16), 0);
    assert_eq!(local_of(-17), 15);
    assert_eq!(local_of(i32::MAX), 15);
    assert_eq!(local_of(i32::MIN), 0);
}

#[test]
fn chunk_and_local_coordinates_rebuild_the_world_coordinate() {
    for w in -100..100 {
        let c = chunk_of(w);
        let l = local_of(w) as i32;
        assert!((0..16).contains(&l));
        assert_eq!(c * 16 + l, w);
        assert_eq!(c, w.div_euclid(16));
        assert_eq!(l, w.rem_euclid(16));
    }
}

#[test]
fn new_chunk_is_all_air() {
    let chunk = Chunk::new((3, -2, 7));
    assert_eq!(chunk.position(), (3, -2, 7));
    for x in 0..16 {
        for y in 0..16 {
            for z in 0..16 {
                assert_eq!(chunk.get_voxel(x, y, z), VoxelType::Air);
            }
        }
    }
}

#[test]
fn chunk_write_reads_back_everywhere() {
    let mut chunk = Chunk::new((0, 0, 0));
    for x in 0..16 {
        for y in 0..16 {
            for z in 0..16 {
                let kind = KINDS[(x + 3 * y + 5 * z) % 7];
                chunk.set_voxel(x, y, z, kind);
                assert_eq!(chunk.get_voxel(x, y, z), kind);
            }
        }
    }
    for x in 0..16 {
        for y in 0..16 {
            for z in 0..16 {
                assert_eq!(chunk.get_voxel(x, y, z), KINDS[(x + 3 * y + 5 * z) % 7]);
            }
        }
    }
}

#[test]
fn chunk_write_changes_one_cell() {
    let mut chunk = Chunk::new((0, 0, 0));
    chunk.set_voxel(1, 2, 3, VoxelType::Stone);
    for x in 0..16 {
        for y in 0..16 {
            for z in 0..16 {
                let expected = if (x, y, z) == (1, 2, 3) { VoxelType::Stone } else { VoxelType::Air };
                assert_eq!(chunk.get_voxel(x, y, z), expected);
            }
        }
    }
}

#[test]
fn chunk_read_outside_is_air_whatever_was_written() {
    let mut chunk = Chunk::new((0, 0, 0));
    for x in 0..16 {
        for y in 0..16 {
            for z in 0..16 {
                chunk.set_voxel(x, y, z, VoxelType::Stone);
            }
        }
    }
    assert_eq!(chunk.get_voxel(16, 0, 0), VoxelType::Air);
    assert_eq!(chunk.get_voxel(0, 16, 0), VoxelType::Air);
    assert_eq!(chunk.get_voxel(0, 0, 16), VoxelType::Air);
    assert_eq!(chunk.get_voxel(16, 16, 16), VoxelType::Air);
    assert_eq!(chunk.get_voxel(usize::MAX, 0, 0), VoxelType::Air);
    assert_eq!(chunk.get_voxel(0, usize::MAX, usize::MAX), VoxelType::Air);
}

#[test]
fn chunk_write_outside_is_ignored() {
    let mut chunk = Chunk::new((0, 0, 0));
    chunk.set_voxel(16, 0, 0, VoxelType::Stone);
    chunk.set_voxel(0, 16, 0, VoxelType::Stone);
    chunk.set_voxel(0, 0, 16, VoxelType::Stone);
    chunk.set_voxel(usize::MAX, usize::MAX, usize::MAX, VoxelType::Stone);
    for x in 0..16 {
        for y in 0..16 {
            for z in 0..16 {
                assert_eq!(chunk.get_voxel(x, y, z), VoxelType::Air);
            }
        }
    }
}
