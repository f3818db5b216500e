use gamecraft::chunk::{Chunk, ChunkPos};
use gamecraft::manager::ChunkManager;
use gamecraft::types::{air, dirt, grass, leaves, sand, stone, water, wood, Block, Rgba};
use gamecraft::types::{CHUNK_SIZE, CHUNK_VOLUME};

#[test]
fn chunk_constants() {
    assert_eq!(CHUNK_SIZE, 16);
    assert_eq!(CHUNK_VOLUME, 4096);
}

#[test]
fn block_new_carries_fields() {
    let b = Block::new(9, "Custom", Rgba { r: 1, g: 2, b: 3, a: 4 });
    assert_eq!(b.id, 9);
    assert_eq!(b.name, "Custom");
    assert_eq!(b.color, Rgba { r: 1, g: 2, b: 3, a: 4 });
}

#[test]
fn registry_ids_are_distinct() {
    let blocks = [
        air(),
        grass(),
        dirt(),
        stone(),
        sand(),
        water(),
        wood(),
        leaves(),
    ];
    for (i, b) in blocks.iter().enumerate() {
        assert_eq!(b.id as usize, i);
    }
}

#[test]
fn air_is_fully_transparent() {
    let a = air();
    assert_eq!(a.id, 0);
    assert_eq!(a.color, Rgba { r: 0, g: 0, b: 0, a: 0 });
}

#[test]
fn new_chunk_is_all_air() {
    let c = Chunk::new(ChunkPos::new(2, -3, 4));
    assert_eq!(c.position, ChunkPos { x: 2, y: -3, z: 4 });
    assert_eq!(c.blocks.len(), CHUNK_VOLUME);
    for z in 0..CHUNK_SIZE {
        for y in 0..CHUNK_SIZE {
            for x in 0..CHUNK_SIZE {
                assert_eq!(c.get_block(x, y, z).id, 0);
            }
        }
    }
}

#[test]
fn set_block_then_get_block_roundtrip() {
    let mut c = Chunk::new(ChunkPos::new(0, 0, 0));
    c.set_block(1, 2, 3, stone());
    c.set_block(15, 15, 15, water());
    c.set_block(0, 0, 0, grass());
    assert_eq!(c.get_block(1, 2, 3).id, stone().id);
    assert_eq!(c.get_block(15, 15, 15).id, water().id);
    assert_eq!(c.get_block(0, 0, 0).id, grass().id);
    // an untouched neighbor stays air
    assert_eq!(c.get_block(1, 2, 4).id, 0);
}

#[test]
fn set_block_uses_flat_index_order() {
    // index(x, y, z) = x + N * (y + N * z): writing through set_block lands
    // at exactly that slot of the backing vector.
    let mut c = Chunk::new(ChunkPos::new(0, 0, 0));
    c.set_block(3, 2, 1, wood());
    let idx = 3 + CHUNK_SIZE * (2 + CHUNK_SIZE * 1);
    assert_eq!(c.blocks[idx].id, wood().id);
}

#[test]
fn generate_test_chunk_layers() {
    let mut cm = ChunkManager::default();
    cm.generate_test_chunk();
    assert_eq!(cm.chunks.len(), 1);
    let c = &cm.chunks[0];
    assert_eq!(c.position, ChunkPos { x: 0, y: 0, z: 0 });
    // stone floor, dirt, grass surface, air above
    assert_eq!(c.get_block(0, 0, 0).id, stone().id);
    assert_eq!(c.get_block(7, 1, 9).id, stone().id);
    assert_eq!(c.get_block(5, 2, 5).id, dirt().id);
    assert_eq!(c.get_block(5, 3, 5).id, dirt().id);
    assert_eq!(c.get_block(4, 4, 4).id, grass().id);
    assert_eq!(c.get_block(0, 7, 0).id, 0);
    // the tree: wood trunk ring at y = 5, leaves at y = 6
    assert_eq!(c.get_block(10, 5, 10).id, wood().id);
    assert_eq!(c.get_block(8, 5, 8).id, 0);
    assert_eq!(c.get_block(10, 6, 10).id, leaves().id);
    assert_eq!(c.get_block(8, 6, 8).id, leaves().id);
    assert_eq!(c.get_block(7, 6, 7).id, 0);
    // every block carries its registered color
    assert_eq!(c.get_block(4, 4, 4).color, grass().color);
    assert_eq!(c.get_block(0, 0, 0).color, stone().color);
}

#[test]
fn ensure_test_chunk_is_idempotent() {
    let mut cm = ChunkManager::default();
    assert_eq!(cm.chunks.len(), 0);
    cm.ensure_test_chunk();
    assert_eq!(cm.chunks.len(), 1);
    cm.ensure_test_chunk();
    cm.ensure_test_chunk();
    assert_eq!(cm.chunks.len(), 1);
}
