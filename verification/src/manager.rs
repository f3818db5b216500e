//! The chunk manager: an ordered collection of chunks, with a scripted
//! content generator that fills one chunk with a fixed terrain pattern.

use vstd::prelude::*;

use crate::chunk::{Chunk, ChunkPos, in_chunk};
use crate::types::{registry_color, CHUNK_SIZE};
use crate::types::{air, dirt, grass, leaves, stone, wood};

verus! {

/// The block identifier the scripted generator writes at `(x, y, z)`:
/// two layers of stone, two of dirt, a grass surface, then a small tree of
/// wood and leaves; everything else is air.
pub open spec fn test_pattern_id(x: int, y: int, z: int) -> u8 {
    if y < 2 {
        3
    } else if y < 4 {
        2
    } else if y == 4 {
        1
    } else if y == 5 && 8 < x < 12 && 8 < z < 12 {
        6
    } else if y == 6 && 7 < x < 13 && 7 < z < 13 {
        7
    } else {
        0
    }
}

/// Whether the cell of `c` at `(x, y, z)` holds the generator's block for
/// that coordinate, with its registered color.
pub open spec fn matches_test_pattern(c: Chunk, x: int, y: int, z: int) -> bool {
    &&& c.block_at(x, y, z).id == test_pattern_id(x, y, z)
    &&& c.block_at(x, y, z).color == registry_color(test_pattern_id(x, y, z))
}

/// Holds the world's chunks, in the order they were generated.
pub struct ChunkManager {
    pub chunks: Vec<Chunk>,
}

impl Default for ChunkManager {
    fn default() -> (m: ChunkManager)
        ensures
            m.chunks@.len() == 0,
    {
        ChunkManager { chunks: Vec::new() }
    }
}

impl ChunkManager {
    /// Generates one chunk of scripted terrain at the chunk-space origin and
    /// appends it, leaving the existing chunks untouched.
    pub fn generate_test_chunk(&mut self)
        ensures
            final(self).chunks@.len() == old(self).chunks@.len() + 1,
            forall|i: int| 0 <= i < old(self).chunks@.len()
                ==> final(self).chunks@[i] == old(self).chunks@[i],
            final(self).chunks@.last().wf(),
            final(self).chunks@.last().position == (ChunkPos { x: 0, y: 0, z: 0 }),
            forall|x: int, y: int, z: int| in_chunk(x, y, z)
                ==> matches_test_pattern(final(self).chunks@.last(), x, y, z),
    {
        let mut c = Chunk::new(ChunkPos::new(0, 0, 0));

        for z in 0..CHUNK_SIZE
            invariant
                c.wf(),
                c.position == (ChunkPos { x: 0, y: 0, z: 0 }),
                forall|xx: int, yy: int, zz: int|
                    in_chunk(xx, yy, zz) && zz < z as int ==> matches_test_pattern(c, xx, yy, zz),
        {
            for y in 0..CHUNK_SIZE
                invariant
                    c.wf(),
                    c.position == (ChunkPos { x: 0, y: 0, z: 0 }),
                    z < CHUNK_SIZE,
                    forall|xx: int, yy: int, zz: int|
                        in_chunk(xx, yy, zz)
                            && (zz < z as int || (zz == z as int && yy < y as int))
                            ==> matches_test_pattern(c, xx, yy, zz),
            {
                for x in 0..CHUNK_SIZE
                    invariant
                        c.wf(),
                        c.position == (ChunkPos { x: 0, y: 0, z: 0 }),
                        z < CHUNK_SIZE,
                        y < CHUNK_SIZE,
                        forall|xx: int, yy: int, zz: int|
                            in_chunk(xx, yy, zz)
                                && (zz < z as int
                                    || (zz == z as int && yy < y as int)
                                    || (zz == z as int && yy == y as int && xx < x as int))
                                ==> matches_test_pattern(c, xx, yy, zz),
                {
                    let b = if y < 2 {
                        stone()
                    } else if y < 4 {
                        dirt()
                    } else if y == 4 {
                        grass()
                    } else if y == 5 && x > 8 && x < 12 && z > 8 && z < 12 {
                        wood()
                    } else if y == 6 && x > 7 && x < 13 && z > 7 && z < 13 {
                        leaves()
                    } else {
                        air()
                    };
                    c.set_block(x, y, z, b);
                }
            }
        }

        self.chunks.push(c);
    }

    /// Makes sure at least one chunk exists: generates the scripted chunk
    /// exactly when the collection is empty, and does nothing otherwise.
    pub fn ensure_test_chunk(&mut self)
        ensures
            old(self).chunks@.len() > 0 ==> *final(self) == *old(self),
            old(self).chunks@.len() == 0 ==> {
                &&& final(self).chunks@.len() == 1
                &&& final(self).chunks@.last().wf()
                &&& final(self).chunks@.last().position == (ChunkPos { x: 0, y: 0, z: 0 })
                &&& forall|x: int, y: int, z: int| in_chunk(x, y, z)
                    ==> matches_test_pattern(final(self).chunks@.last(), x, y, z)
            },
    {
        if self.chunks.is_empty() {
            self.generate_test_chunk();
        }
    }
}

} // verus!
