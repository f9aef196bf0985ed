use voxel_core::voxel::VoxelType;
use voxel_core::buffer::BUFFER_LEN;
use voxel_core::world::World;

fn formula_height(wx: i32, wz: i32) -> f32 {
    let world_x = wx as f32;
    let world_z = wz as f32;
    4.0 + (world_x * 0.1).sin() * 1.0 + (world_z * 0.1).cos() * 1.0
}

fn formula_voxel(y: i32, height: f32) -> VoxelType {
    let y = y as f32;
    if y <= height {
        if y > height - 1.0 {
            VoxelType::Grass
        } else if y > height - 3.0 {
            VoxelType::Dirt
        } else {
            VoxelType::Stone
        }
    } else {
        VoxelType::Air
    }
}

fn column(world: &World, wx: i32, wz: i32) -> Vec<VoxelType> {
    (0..16).map(|y| world.get_voxel(wx, y, wz)).collect()
}

fn expected_column(surface: usize) -> Vec<VoxelType> {
    (0..16)
        .map(|y| {
            if y > surface {
                VoxelType::Air
            } else if y == surface {
                VoxelType::Grass
            } else if y + 2 >= surface {
                VoxelType::Dirt
            } else {
                VoxelType::Stone
            }
        })
        .collect()
}

#[test]
fn empty_world_reads_air() {
    let world = World::empty();
    assert_eq!(world.chunk_count(), 0);
    assert_eq!(world.get_voxel(0, 0, 0), VoxelType::Air);
    assert_eq!(world.get_voxel(-5, 100, 7), VoxelType::Air);
    assert_eq!(world.get_voxel(i32::MIN, i32::MAX, i32::MIN), VoxelType::Air);
}

#[test]
fn world_write_reads_back() {
    let mut world = World::empty();
    let positions = [
        (0, 0, 0),
        (15, 15, 15),
        (16, 0, 0),
        (-1, 0, 0),
        (-1, -1, -1),
        (-16, 5, -17),
        (100, -200, 300),
        (i32::MAX, i32::MIN, 0),
        (i32::MIN, i32::MAX, i32::MIN),
    ];
    for (n, &(x, y, z)) in positions.iter().enumerate() {
        let kind = if n % 2 == 0 { VoxelType::Stone } else { VoxelType::Wood };
        world.set_voxel(x, y, z, kind);
        assert_eq!(world.get_voxel(x, y, z), kind);
    }
    for (n, &(x, y, z)) in positions.iter().enumerate() {
        let kind = if n % 2 == 0 { VoxelType::Stone } else { VoxelType::Wood };
        assert_eq!(world.get_voxel(x, y, z), kind);
    }
}

#[test]
fn world_write_holds_across_the_boundary_at_zero() {
    let mut world = World::empty();
    world.set_voxel(-1, 0, 0, VoxelType::Dirt);
    world.set_voxel(0, 0, 0, VoxelType::Stone);
    assert_eq!(world.get_voxel(-1, 0, 0), VoxelType::Dirt);
    assert_eq!(world.get_voxel(0, 0, 0), VoxelType::Stone);
    assert_eq!(world.get_voxel(15, 0, 0), VoxelType::Air);
    assert_eq!(world.get_voxel(-16, 0, 0), VoxelType::Air);
    assert_eq!(world.get_voxel(1, 0, 0), VoxelType::Air);
    assert_eq!(world.get_voxel(-2, 0, 0), VoxelType::Air);
    assert_eq!(world.chunk_positions(), vec![(-1, 0, 0), (0, 0, 0)]);
}

#[test]
fn world_write_changes_one_voxel() {
    let mut world = World::new();
    let before: Vec<VoxelType> = probe_positions().iter().map(|&(x, y, z)| world.get_voxel(x, y, z)).collect();
    world.set_voxel(-3, 9, 20, VoxelType::Light);
    for (n, &(x, y, z)) in probe_positions().iter().enumerate() {
        let expected = if (x, y, z) == (-3, 9, 20) { VoxelType::Light } else { before[n] };
        assert_eq!(world.get_voxel(x, y, z), expected);
    }
}

fn probe_positions() -> Vec<(i32, i32, i32)> {
    let mut positions = Vec::new();
    for x in -18..34 {
        for y in -1..17 {
            for z in [-17, -16, -1, 0, 15, 16, 19, 20, 21, 31, 32] {
                positions.push((x, y, z));
            }
        }
    }
    positions
}

#[test]
fn world_grows_by_one_chunk_per_new_position() {
    let mut world = World::empty();
    world.set_voxel(0, 0, 0, VoxelType::Stone);
    assert_eq!(world.chunk_count(), 1);
    world.set_voxel(15, 15, 15, VoxelType::Stone);
    assert_eq!(world.chunk_count(), 1);
    world.set_voxel(16, 0, 0, VoxelType::Stone);
    assert_eq!(world.chunk_count(), 2);
    world.set_voxel(0, -1, 0, VoxelType::Stone);
    assert_eq!(world.chunk_count(), 3);
    world.set_voxel(17, 3, 4, VoxelType::Air);
    assert_eq!(world.chunk_count(), 3);
    world.set_voxel(0, 0, 40, VoxelType::Air);
    assert_eq!(world.chunk_count(), 4);
    assert_eq!(world.chunk_positions(), vec![(0, 0, 0), (1, 0, 0), (0, -1, 0), (0, 0, 2)]);
}

#[test]
fn starting_world_has_nine_chunks() {
    let world = World::new();
    assert_eq!(world.chunk_count(), 9);
    assert_eq!(
        world.chunk_positions(),
        vec![
            (-1, 0, -1),
            (-1, 0, 0),
            (-1, 0, 1),
            (0, 0, -1),
            (0, 0, 0),
            (0, 0, 1),
            (1, 0, -1),
            (1, 0, 0),
            (1, 0, 1),
        ]
    );
}

#[test]
fn starting_world_column_at_origin() {
    // height = 4 + sin(0) + cos(0) = 5
    let world = World::new();
    assert_eq!(column(&world, 0, 0), expected_column(5));
    assert_eq!(world.get_voxel(0, 6, 0), VoxelType::Air);
    assert_eq!(world.get_voxel(0, 5, 0), VoxelType::Grass);
    assert_eq!(world.get_voxel(0, 4, 0), VoxelType::Dirt);
    assert_eq!(world.get_voxel(0, 3, 0), VoxelType::Dirt);
    assert_eq!(world.get_voxel(0, 2, 0), VoxelType::Stone);
    assert_eq!(world.get_voxel(0, 1, 0), VoxelType::Stone);
    assert_eq!(world.get_voxel(0, 0, 0), VoxelType::Stone);
}

#[test]
fn starting_world_sampled_columns() {
    let world = World::new();
    // 4 + sin(1.6) + cos(0) = 4 + 0.99957 + 1 = 5.99957
    assert_eq!(column(&world, 16, 0), expected_column(5));
    // 4 + sin(-1.6) + cos(3.1) = 4 - 0.99957 - 0.99914 = 2.00129
    assert_eq!(column(&world, -16, 31), expected_column(2));
    assert_eq!(world.get_voxel(-16, 2, 31), VoxelType::Grass);
    assert_eq!(world.get_voxel(-16, 1, 31), VoxelType::Dirt);
    assert_eq!(world.get_voxel(-16, 0, 31), VoxelType::Dirt);
    // 4 + sin(0) + cos(1.0) = 4 + 0.54030 = 4.54030
    assert_eq!(column(&world, 0, 10), expected_column(4));
    // 4 + sin(-0.2) + cos(2.5) = 4 - 0.19867 - 0.80114 = 3.00019
    assert_eq!(column(&world, -2, 25), expected_column(3));
    // 4 + sin(3.1) + cos(-1.6) = 4 + 0.04158 - 0.02920 = 4.01238
    assert_eq!(column(&world, 31, -16), expected_column(4));
}

#[test]
fn starting_world_follows_the_height_formula() {
    let world = World::new();
    for wx in -16..32 {
        for wz in -16..32 {
            let height = formula_height(wx, wz);
            for y in 0..16 {
                assert_eq!(
                    world.get_voxel(wx, y, wz),
                    formula_voxel(y, height),
                    "at ({}, {}, {}) with height {}",
                    wx,
                    y,
                    wz,
                    height
                );
            }
        }
    }
}

#[test]
fn starting_world_columns_are_layered() {
    let world = World::new();
    for wx in -16..32 {
        for wz in -16..32 {
            let cells = column(&world, wx, wz);
            let top = cells.iter().rposition(|&kind| kind != VoxelType::Air).unwrap();
            assert!((2..=5).contains(&top));
            assert_eq!(cells, expected_column(top));
        }
    }
}

#[test]
fn starting_world_is_air_outside_the_grid() {
    let world = World::new();
    for w in -16..32 {
        for y in 0..16 {
            assert_eq!(world.get_voxel(-17, y, w), VoxelType::Air);
            assert_eq!(world.get_voxel(32, y, w), VoxelType::Air);
            assert_eq!(world.get_voxel(w, y, -17), VoxelType::Air);
            assert_eq!(world.get_voxel(w, y, 32), VoxelType::Air);
        }
        assert_eq!(world.get_voxel(w, -1, w), VoxelType::Air);
        assert_eq!(world.get_voxel(w, 16, w), VoxelType::Air);
    }
}

#[test]
fn starting_world_is_the_same_every_time() {
    assert_eq!(World::new().to_gpu_buffer(), World::new().to_gpu_buffer());
}

#[test]
fn buffer_has_nine_slots() {
    assert_eq!(BUFFER_LEN, 9 * 4096);
    assert_eq!(World::empty().to_gpu_buffer().len(), 9 * 4096);
    assert_eq!(World::new().to_gpu_buffer().len(), 9 * 4096);
    let mut world = World::new();
    world.set_voxel(1000, 1000, 1000, VoxelType::Stone);
    world.set_voxel(0, 40, 0, VoxelType::Stone);
    assert_eq!(world.to_gpu_buffer().len(), 9 * 4096);
}

#[test]
fn buffer_of_an_air_world_is_zero() {
    assert!(World::empty().to_gpu_buffer().iter().all(|&code| code == 0));
    let mut world = World::empty();
    for x in [-16, -1, 0, 31] {
        for z in [-16, -1, 0, 31] {
            world.set_voxel(x, 0, z, VoxelType::Air);
        }
    }
    assert_eq!(world.chunk_count(), 9);
    assert!(world.to_gpu_buffer().iter().all(|&code| code == 0));
}

#[test]
fn buffer_places_each_voxel_by_the_layout() {
    let kinds = [
        VoxelType::Dirt,
        VoxelType::Grass,
        VoxelType::Stone,
        VoxelType::Wood,
        VoxelType::Leaves,
        VoxelType::Light,
    ];
    let mut n = 0;
    for wx in [-16, -9, -1, 0, 7, 15, 16, 31] {
        for wy in [0, 3, 15] {
            for wz in [-16, -1, 0, 5, 15, 16, 30, 31] {
                let kind = kinds[n % 6];
                n += 1;
                let mut world = World::empty();
                world.set_voxel(wx, wy, wz, kind);
                let buffer = world.to_gpu_buffer();
                let chunk_x = (wx.div_euclid(16) + 1) as usize;
                let chunk_z = (wz.div_euclid(16) + 1) as usize;
                let chunk_index = chunk_x + chunk_z * 3;
                let local = wx.rem_euclid(16) as usize
                    + wy as usize * 16
                    + wz.rem_euclid(16) as usize * 256;
                let index = chunk_index * 4096 + local;
                for (k, &code) in buffer.iter().enumerate() {
                    assert_eq!(code, if k == index { kind.code() } else { 0 });
                }
            }
        }
    }
}

#[test]
fn buffer_exact_indices() {
    let mut world = World::empty();
    world.set_voxel(-16, 0, -16, VoxelType::Dirt);
    world.set_voxel(0, 0, 0, VoxelType::Grass);
    world.set_voxel(1, 2, 3, VoxelType::Stone);
    world.set_voxel(31, 15, 31, VoxelType::Light);
    world.set_voxel(16, 0, -16, VoxelType::Wood);
    world.set_voxel(-16, 0, 16, VoxelType::Leaves);
    let buffer = world.to_gpu_buffer();
    assert_eq!(buffer[0], 1);
    assert_eq!(buffer[4 * 4096], 2);
    assert_eq!(buffer[4 * 4096 + 1 + 2 * 16 + 3 * 256], 3);
    assert_eq!(buffer[8 * 4096 + 4095], 6);
    assert_eq!(buffer[2 * 4096], 4);
    assert_eq!(buffer[6 * 4096], 5);
    assert_eq!(buffer.iter().filter(|&&code| code != 0).count(), 6);
}

#[test]
fn buffer_of_the_starting_world_shows_the_terrain() {
    let world = World::new();
    let buffer = world.to_gpu_buffer();
    for wx in -16..32i32 {
        for wz in -16..32i32 {
            for y in 0..16i32 {
                let chunk_index = (wx.div_euclid(16) + 1) + (wz.div_euclid(16) + 1) * 3;
                let local = wx.rem_euclid(16) + y * 16 + wz.rem_euclid(16) * 256;
                let index = (chunk_index * 4096 + local) as usize;
                assert_eq!(buffer[index], world.get_voxel(wx, y, wz).code());
            }
        }
    }
}

#[test]
fn buffer_leaves_out_chunks_outside_the_grid() {
    let mut world = World::empty();
    world.set_voxel(32, 0, -16, VoxelType::Stone);
    world.set_voxel(-17, 0, 0, VoxelType::Stone);
    world.set_voxel(-17, 0, 16, VoxelType::Stone);
    world.set_voxel(0, 0, 32, VoxelType::Stone);
    world.set_voxel(0, 0, -17, VoxelType::Stone);
    world.set_voxel(48, 0, 48, VoxelType::Stone);
    assert_eq!(world.chunk_count(), 6);
    assert!(world.to_gpu_buffer().iter().all(|&code| code == 0));
}

#[test]
fn buffer_shows_the_chunk_added_last_in_a_slot() {
    let mut world = World::empty();
    world.set_voxel(0, 0, 0, VoxelType::Stone);
    world.set_voxel(1, 0, 0, VoxelType::Dirt);
    let buffer = world.to_gpu_buffer();
    assert_eq!(buffer[4 * 4096], 3);
    assert_eq!(buffer[4 * 4096 + 1], 1);
    // a second layer of chunks over the same slot
    world.set_voxel(0, 16, 0, VoxelType::Wood);
    let buffer = world.to_gpu_buffer();
    assert_eq!(buffer[4 * 4096], 4);
    assert_eq!(buffer[4 * 4096 + 1], 0);
    assert_eq!(world.get_voxel(0, 0, 0), VoxelType::Stone);
    assert_eq!(world.get_voxel(1, 0, 0), VoxelType::Dirt);
}
