//! A chunk: a cubic grid of blocks with flat-array addressing, plus its
//! integer grid position in chunk space.
//!
//! The backing sequence always holds exactly `CHUNK_VOLUME` blocks; the
//! flat index of a local coordinate is `x + CHUNK_SIZE * (y + CHUNK_SIZE * z)`.
//! Addressing outside `[0, CHUNK_SIZE)` is ruled out by precondition, never
//! clamped.

use vstd::prelude::*;

use crate::types::{Block, CHUNK_SIZE, CHUNK_VOLUME, AIR_ID};

verus! {

/// A chunk's integer coordinate in chunk space: one chunk occupies a cube
/// of `CHUNK_SIZE` world units on each side at `position * CHUNK_SIZE`.
#[derive(Clone, Copy, Debug, PartialEq, Eq, Structural)]
pub struct ChunkPos {
    pub x: i32,
    pub y: i32,
    pub z: i32,
}

impl ChunkPos {
    pub fn new(x: i32, y: i32, z: i32) -> (p: ChunkPos)
        ensures
            p == (ChunkPos { x, y, z }),
    {
        ChunkPos { x, y, z }
    }
}

/// Flat index of the local coordinate `(x, y, z)` in a chunk's backing
/// sequence: `x` varies fastest, then `y`, then `z`.
pub open spec fn flat_index(x: int, y: int, z: int) -> int {
    x + (CHUNK_SIZE as int) * (y + (CHUNK_SIZE as int) * z)
}

/// Whether a local coordinate lies inside the chunk grid.
pub open spec fn in_chunk(x: int, y: int, z: int) -> bool {
    &&& 0 <= x < CHUNK_SIZE as int
    &&& 0 <= y < CHUNK_SIZE as int
    &&& 0 <= z < CHUNK_SIZE as int
}

/// A cubic grid of blocks at a fixed position in chunk space.
#[derive(Clone)]
pub struct Chunk {
    pub blocks: Vec<Block>,
    pub position: ChunkPos,
}

impl Chunk {
    /// Well-formedness: the backing sequence holds one block per cell.
    pub open spec fn wf(&self) -> bool {
        self.blocks@.len() == CHUNK_VOLUME as int
    }

    /// The block stored at local coordinate `(x, y, z)`.
    pub open spec fn block_at(&self, x: int, y: int, z: int) -> Block {
        self.blocks@[flat_index(x, y, z)]
    }

    /// Whether the cell at `(x, y, z)` holds a non-air block.
    pub open spec fn solid_at(&self, x: int, y: int, z: int) -> bool {
        self.block_at(x, y, z).id != AIR_ID
    }

    /// A fresh chunk at the given grid position, every cell holding air.
    pub fn new(position: ChunkPos) -> (c: Chunk)
        ensures
            c.wf(),
            c.position == position,
            forall|x: int, y: int, z: int|
                in_chunk(x, y, z) ==> !c.solid_at(x, y, z),
            forall|x: int, y: int, z: int|
                in_chunk(x, y, z) ==> c.block_at(x, y, z).color
                    == crate::types::registry_color(AIR_ID),
    {
        let mut blocks: Vec<Block> = Vec::new();
        let mut i: usize = 0;
        while i < CHUNK_VOLUME
            invariant
                i <= CHUNK_VOLUME,
                blocks@.len() == i as int,
                forall|j: int| 0 <= j < i as int
                    ==> blocks@[j].id == AIR_ID
                        && blocks@[j].color == crate::types::registry_color(AIR_ID),
            decreases CHUNK_VOLUME - i,
        {
            blocks.push(crate::types::air());
            i = i + 1;
        }
        proof {
            assert forall|x: int, y: int, z: int| in_chunk(x, y, z)
                implies 0 <= flat_index(x, y, z) < CHUNK_VOLUME as int by {
                lemma_flat_index_bounds(x, y, z);
            }
        }
        Chunk { blocks, position }
    }

    fn index(x: usize, y: usize, z: usize) -> (i: usize)
        requires
            x < CHUNK_SIZE,
            y < CHUNK_SIZE,
            z < CHUNK_SIZE,
        ensures
            i as int == flat_index(x as int, y as int, z as int),
            i < CHUNK_VOLUME,
    {
        proof {
            lemma_flat_index_bounds(x as int, y as int, z as int);
        }
        x + CHUNK_SIZE * (y + CHUNK_SIZE * z)
    }

    /// Writes `block` into the cell at `(x, y, z)`, leaving every other
    /// cell and the position unchanged.
    pub fn set_block(&mut self, x: usize, y: usize, z: usize, block: Block)
        requires
            old(self).wf(),
            x < CHUNK_SIZE,
            y < CHUNK_SIZE,
            z < CHUNK_SIZE,
        ensures
            final(self).wf(),
            final(self).position == old(self).position,
            final(self).blocks@ == old(self).blocks@.update(
                flat_index(x as int, y as int, z as int),
                block,
            ),
            final(self).block_at(x as int, y as int, z as int) == block,
            forall|xx: int, yy: int, zz: int|
                in_chunk(xx, yy, zz) && (xx, yy, zz) != (x as int, y as int, z as int)
                    ==> final(self).block_at(xx, yy, zz) == old(self).block_at(xx, yy, zz),
    {
        let idx = Self::index(x, y, z);
        self.blocks.set(idx, block);
        proof {
            assert forall|xx: int, yy: int, zz: int|
                in_chunk(xx, yy, zz) && (xx, yy, zz) != (x as int, y as int, z as int)
                implies final(self).block_at(xx, yy, zz) == old(self).block_at(xx, yy, zz) by {
                lemma_flat_index_bounds(xx, yy, zz);
                if flat_index(xx, yy, zz) == flat_index(x as int, y as int, z as int) {
                    lemma_flat_index_injective(xx, yy, zz, x as int, y as int, z as int);
                }
            }
        }
    }

    /// The block at `(x, y, z)`.
    pub fn get_block(&self, x: usize, y: usize, z: usize) -> (b: Block)
        requires
            self.wf(),
            x < CHUNK_SIZE,
            y < CHUNK_SIZE,
            z < CHUNK_SIZE,
        ensures
            b == self.block_at(x as int, y as int, z as int),
    {
        let idx = Self::index(x, y, z);
        self.blocks[idx]
    }
}

/// The flat index of an in-bounds coordinate lies inside the backing sequence.
pub proof fn lemma_flat_index_bounds(x: int, y: int, z: int)
    requires
        in_chunk(x, y, z),
    ensures
        0 <= flat_index(x, y, z) < CHUNK_VOLUME as int,
{
}

/// Distinct in-bounds coordinates map to distinct flat indices.
pub proof fn lemma_flat_index_injective(x1: int, y1: int, z1: int, x2: int, y2: int, z2: int)
    requires
        in_chunk(x1, y1, z1),
        in_chunk(x2, y2, z2),
        flat_index(x1, y1, z1) == flat_index(x2, y2, z2),
    ensures
        x1 == x2 && y1 == y2 && z1 == z2,
{
}

} // verus!
