use gamecraft::chunk::{Chunk, ChunkPos};
use gamecraft::manager::ChunkManager;
use gamecraft::mesher::{generate_mesh_for_chunk, ChunkMesh, Uv, Vec3i};
use gamecraft::types::{grass, stone, water, CHUNK_SIZE};

fn v(x: i64, y: i64, z: i64) -> Vec3i {
    Vec3i { x, y, z }
}

/// The six outward normals in emission order: +X, -X, +Y, -Y, +Z, -Z.
fn axis_normals() -> [Vec3i; 6] {
    [
        v(1, 0, 0),
        v(-1, 0, 0),
        v(0, 1, 0),
        v(0, -1, 0),
        v(0, 0, 1),
        v(0, 0, -1),
    ]
}

/// Checks the outward-winding invariant of every triangle of a mesh: the
/// cross product of its edges equals the normal stored at its vertices.
fn assert_outward_winding(m: &ChunkMesh) {
    assert_eq!(m.indices.len() % 3, 0);
    for t in 0..m.indices.len() / 3 {
        let i0 = m.indices[3 * t] as usize;
        let i1 = m.indices[3 * t + 1] as usize;
        let i2 = m.indices[3 * t + 2] as usize;
        let a = m.positions[i0];
        let b = m.positions[i1];
        let c = m.positions[i2];
        let e1 = v(b.x - a.x, b.y - a.y, b.z - a.z);
        let e2 = v(c.x - a.x, c.y - a.y, c.z - a.z);
        let cross = v(
            e1.y * e2.z - e1.z * e2.y,
            e1.z * e2.x - e1.x * e2.z,
            e1.x * e2.y - e1.y * e2.x,
        );
        assert_eq!(cross, m.normals[i0]);
        assert_eq!(m.normals[i0], m.normals[i1]);
        assert_eq!(m.normals[i1], m.normals[i2]);
    }
}

#[test]
fn all_air_chunk_meshes_to_nothing() {
    let c = Chunk::new(ChunkPos::new(0, 0, 0));
    let m = generate_mesh_for_chunk(&c);
    assert_eq!(m.positions.len(), 0);
    assert_eq!(m.normals.len(), 0);
    assert_eq!(m.uvs.len(), 0);
    assert_eq!(m.colors.len(), 0);
    assert_eq!(m.indices.len(), 0);
}

#[test]
fn single_block_emits_six_faces() {
    let mut c = Chunk::new(ChunkPos::new(0, 0, 0));
    c.set_block(3, 4, 5, grass());
    let m = generate_mesh_for_chunk(&c);
    assert_eq!(m.positions.len(), 24);
    assert_eq!(m.normals.len(), 24);
    assert_eq!(m.uvs.len(), 24);
    assert_eq!(m.colors.len(), 24);
    assert_eq!(m.indices.len(), 36);
    // one quad per axis-aligned unit normal, each exactly once, in order
    for (q, n) in axis_normals().iter().enumerate() {
        for j in 0..4 {
            assert_eq!(m.normals[4 * q + j], *n);
        }
    }
}

#[test]
fn single_block_corner_positions() {
    let mut c = Chunk::new(ChunkPos::new(0, 0, 0));
    c.set_block(3, 4, 5, grass());
    let m = generate_mesh_for_chunk(&c);
    // the first quad is the +X face, its corners on the x = 4 plane
    assert_eq!(m.positions[0], v(4, 4, 6));
    assert_eq!(m.positions[1], v(4, 4, 5));
    assert_eq!(m.positions[2], v(4, 5, 5));
    assert_eq!(m.positions[3], v(4, 5, 6));
    // every emitted vertex is a corner of the unit cube at (3, 4, 5)
    for p in &m.positions {
        assert!(p.x == 3 || p.x == 4);
        assert!(p.y == 4 || p.y == 5);
        assert!(p.z == 5 || p.z == 6);
    }
}

#[test]
fn adjacent_blocks_suppress_shared_faces() {
    // two blocks side by side along x: 10 faces, not 12
    let mut c = Chunk::new(ChunkPos::new(0, 0, 0));
    c.set_block(5, 5, 5, stone());
    c.set_block(6, 5, 5, water());
    let m = generate_mesh_for_chunk(&c);
    assert_eq!(m.positions.len(), 40);
    assert_eq!(m.indices.len(), 60);
    // and the same along y and along z
    for (dx, dy, dz) in [(0usize, 1usize, 0usize), (0, 0, 1)] {
        let mut c2 = Chunk::new(ChunkPos::new(0, 0, 0));
        c2.set_block(5, 5, 5, stone());
        c2.set_block(5 + dx, 5 + dy, 5 + dz, stone());
        let m2 = generate_mesh_for_chunk(&c2);
        assert_eq!(m2.positions.len(), 40);
        assert_eq!(m2.indices.len(), 60);
    }
}

#[test]
fn winding_faces_outward_everywhere() {
    // a lone block, a pair, and the scripted terrain all wind outward
    let mut c = Chunk::new(ChunkPos::new(0, 0, 0));
    c.set_block(0, 0, 0, grass());
    assert_outward_winding(&generate_mesh_for_chunk(&c));
    c.set_block(1, 0, 0, stone());
    assert_outward_winding(&generate_mesh_for_chunk(&c));
    let mut cm = ChunkManager::default();
    cm.generate_test_chunk();
    assert_outward_winding(&generate_mesh_for_chunk(&cm.chunks[0]));
}

#[test]
fn meshing_twice_is_identical() {
    let mut cm = ChunkManager::default();
    cm.generate_test_chunk();
    let m1 = generate_mesh_for_chunk(&cm.chunks[0]);
    let m2 = generate_mesh_for_chunk(&cm.chunks[0]);
    assert_eq!(m1.positions, m2.positions);
    assert_eq!(m1.normals, m2.normals);
    assert_eq!(m1.uvs, m2.uvs);
    assert_eq!(m1.colors, m2.colors);
    assert_eq!(m1.indices, m2.indices);
}

#[test]
fn boundary_faces_always_emitted() {
    // a block on the x = N-1 edge emits its outward +X face at x = N
    let mut c = Chunk::new(ChunkPos::new(0, 0, 0));
    c.set_block(CHUNK_SIZE - 1, 7, 7, stone());
    let m = generate_mesh_for_chunk(&c);
    assert_eq!(m.positions.len(), 24);
    let plane = CHUNK_SIZE as i64;
    let outward: Vec<usize> = (0..6)
        .filter(|&q| (0..4).all(|j| m.normals[4 * q + j] == v(1, 0, 0)))
        .collect();
    assert_eq!(outward.len(), 1);
    for j in 0..4 {
        assert_eq!(m.positions[4 * outward[0] + j].x, plane);
    }
}

#[test]
fn fully_solid_chunk_emits_exactly_the_hull() {
    // every interior face is suppressed; each of the six sides of the chunk
    // contributes N * N boundary quads
    let mut c = Chunk::new(ChunkPos::new(0, 0, 0));
    for z in 0..CHUNK_SIZE {
        for y in 0..CHUNK_SIZE {
            for x in 0..CHUNK_SIZE {
                c.set_block(x, y, z, stone());
            }
        }
    }
    let m = generate_mesh_for_chunk(&c);
    let hull_quads = 6 * CHUNK_SIZE * CHUNK_SIZE;
    assert_eq!(m.positions.len(), 4 * hull_quads);
    assert_eq!(m.indices.len(), 6 * hull_quads);
    assert_outward_winding(&m);
}

#[test]
fn colors_carried_unchanged_per_block() {
    let mut c = Chunk::new(ChunkPos::new(0, 0, 0));
    c.set_block(5, 5, 5, stone());
    c.set_block(6, 5, 5, water());
    let m = generate_mesh_for_chunk(&c);
    let stone_color = stone().color;
    let water_color = water().color;
    let stone_vertices = m.colors.iter().filter(|&&col| col == stone_color).count();
    let water_vertices = m.colors.iter().filter(|&&col| col == water_color).count();
    // five quads of four vertices each per block, no blending
    assert_eq!(stone_vertices, 20);
    assert_eq!(water_vertices, 20);
    assert_eq!(stone_vertices + water_vertices, m.colors.len());
}

#[test]
fn uv_and_index_layout_per_quad() {
    let mut c = Chunk::new(ChunkPos::new(0, 0, 0));
    c.set_block(2, 2, 2, water());
    let m = generate_mesh_for_chunk(&c);
    for q in 0..6 {
        assert_eq!(m.uvs[4 * q], Uv { u: 0, v: 0 });
        assert_eq!(m.uvs[4 * q + 1], Uv { u: 1, v: 0 });
        assert_eq!(m.uvs[4 * q + 2], Uv { u: 1, v: 1 });
        assert_eq!(m.uvs[4 * q + 3], Uv { u: 0, v: 1 });
        let b = 4 * q as u32;
        assert_eq!(
            &m.indices[6 * q..6 * q + 6],
            &[b, b + 1, b + 2, b, b + 2, b + 3]
        );
    }
}

#[test]
fn world_coordinates_follow_chunk_position() {
    // chunk position scales by the chunk edge length: a block at the local
    // origin of chunk (1, -1, 2) has its corners at (16, -16, 32) and on
    let mut c = Chunk::new(ChunkPos::new(1, -1, 2));
    c.set_block(0, 0, 0, grass());
    let m = generate_mesh_for_chunk(&c);
    assert!(m.positions.contains(&v(16, -16, 32)));
    for p in &m.positions {
        assert!(p.x == 16 || p.x == 17);
        assert!(p.y == -16 || p.y == -15);
        assert!(p.z == 32 || p.z == 33);
    }
}
