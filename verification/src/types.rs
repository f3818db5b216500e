//! Block values and the fixed chunk dimensions.
//!
//! A block is an immutable value: a numeric identifier, a diagnostic label,
//! and an RGBA color. Identifier `0` is reserved for air, the empty block,
//! whose color is fully transparent; the mesher never emits geometry for it.

use vstd::prelude::*;

verus! {

/// Edge length of a chunk, in blocks.
pub const CHUNK_SIZE: usize = 16;

/// Number of cells in a chunk.
pub const CHUNK_VOLUME: usize = CHUNK_SIZE * CHUNK_SIZE * CHUNK_SIZE;

/// An RGBA color with 8-bit channels; 255 stands for full intensity.
#[derive(Clone, Copy, Debug, PartialEq, Eq, Structural)]
pub struct Rgba {
    pub r: u8,
    pub g: u8,
    pub b: u8,
    pub a: u8,
}

/// One block kind: its identifier, a diagnostic label, and its color.
#[derive(Clone, Copy, Debug, PartialEq)]
pub struct Block {
    pub id: u8,
    pub name: &'static str,
    pub color: Rgba,
}

/// The identifier reserved for the empty block.
pub const AIR_ID: u8 = 0;

impl Block {
    pub fn new(id: u8, name: &'static str, color: Rgba) -> (b: Block)
        ensures
            b.id == id,
            b.name == name,
            b.color == color,
    {
        Block { id, name, color }
    }
}

/// The color registered for each block identifier of the built-in set;
/// fully transparent for air and for identifiers outside the set.
pub open spec fn registry_color(id: u8) -> Rgba {
    if id == 1 {
        Rgba { r: 51, g: 204, b: 51, a: 255 }
    } else if id == 2 {
        Rgba { r: 153, g: 102, b: 51, a: 255 }
    } else if id == 3 {
        Rgba { r: 128, g: 128, b: 128, a: 255 }
    } else if id == 4 {
        Rgba { r: 194, g: 179, b: 128, a: 255 }
    } else if id == 5 {
        Rgba { r: 0, g: 128, b: 204, a: 179 }
    } else if id == 6 {
        Rgba { r: 153, g: 102, b: 51, a: 255 }
    } else if id == 7 {
        Rgba { r: 26, g: 153, b: 26, a: 255 }
    } else {
        Rgba { r: 0, g: 0, b: 0, a: 0 }
    }
}

/// The empty block: identifier 0, fully transparent.
pub fn air() -> (b: Block)
    ensures
        b.id == AIR_ID,
        b.color == registry_color(AIR_ID),
{
    Block { id: 0, name: "Air", color: Rgba { r: 0, g: 0, b: 0, a: 0 } }
}

pub fn grass() -> (b: Block)
    ensures
        b.id == 1,
        b.color == registry_color(1),
{
    Block { id: 1, name: "Grass", color: Rgba { r: 51, g: 204, b: 51, a: 255 } }
}

pub fn dirt() -> (b: Block)
    ensures
        b.id == 2,
        b.color == registry_color(2),
{
    Block { id: 2, name: "Dirt", color: Rgba { r: 153, g: 102, b: 51, a: 255 } }
}

pub fn stone() -> (b: Block)
    ensures
        b.id == 3,
        b.color == registry_color(3),
{
    Block { id: 3, name: "Stone", color: Rgba { r: 128, g: 128, b: 128, a: 255 } }
}

pub fn sand() -> (b: Block)
    ensures
        b.id == 4,
        b.color == registry_color(4),
{
    Block { id: 4, name: "Sand", color: Rgba { r: 194, g: 179, b: 128, a: 255 } }
}

pub fn water() -> (b: Block)
    ensures
        b.id == 5,
        b.color == registry_color(5),
{
    Block { id: 5, name: "Water", color: Rgba { r: 0, g: 128, b: 204, a: 179 } }
}

pub fn wood() -> (b: Block)
    ensures
        b.id == 6,
        b.color == registry_color(6),
{
    Block { id: 6, name: "Wood", color: Rgba { r: 153, g: 102, b: 51, a: 255 } }
}

pub fn leaves() -> (b: Block)
    ensures
        b.id == 7,
        b.color == registry_color(7),
{
    Block { id: 7, name: "Leaves", color: Rgba { r: 26, g: 153, b: 26, a: 255 } }
}

} // verus!
