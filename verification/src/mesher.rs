//! The culled-face mesher: turns one chunk into a flat vertex/index mesh.
//!
//! For every solid cell it emits one quad per face whose neighbor is either
//! outside the chunk or holds air; a chunk's own boundary is always treated
//! as exposed. Each quad contributes four vertices (position, normal, texture
//! coordinate, color) and six triangle indices with counter-clockwise winding
//! seen from outside the solid volume.
//!
//! The whole output is pinned by `mesh_quads`: a specification-level list of
//! the quads the mesher must emit, in emission order. `generate_mesh_for_chunk`
//! ensures its buffers spell out exactly that list.

use vstd::prelude::*;

use crate::chunk::{Chunk, in_chunk};
use crate::types::{Rgba, CHUNK_SIZE, CHUNK_VOLUME, AIR_ID};

verus! {

/// An integer point or vector in world space.
///
/// All geometry the mesher emits lies on the unit grid, so coordinates are
/// exact integers; a rendering consumer converts them to its own scalar type.
#[derive(Clone, Copy, Debug, PartialEq, Eq, Structural)]
pub struct Vec3i {
    pub x: i64,
    pub y: i64,
    pub z: i64,
}

/// A mathematical point: the view of a `Vec3i`.
pub ghost struct Point3 {
    pub x: int,
    pub y: int,
    pub z: int,
}

impl View for Vec3i {
    type V = Point3;

    open spec fn view(&self) -> Point3 {
        Point3 { x: self.x as int, y: self.y as int, z: self.z as int }
    }
}

/// A texture coordinate; each quad spans (0,0) to (1,1).
#[derive(Clone, Copy, Debug, PartialEq, Eq, Structural)]
pub struct Uv {
    pub u: u8,
    pub v: u8,
}

/// One emitted quad, as the specification sees it: the cell and face it came
/// from, its four corners in emission order, its outward normal, and the
/// color carried by all four vertices.
pub ghost struct Quad {
    pub cell: Point3,
    pub face: int,
    pub a: Point3,
    pub b: Point3,
    pub c: Point3,
    pub d: Point3,
    pub normal: Point3,
    pub color: Rgba,
}

/// The mesher's output: four parallel vertex attribute buffers, all indexed
/// identically, and a triangle index list.
pub struct ChunkMesh {
    pub positions: Vec<Vec3i>,
    pub normals: Vec<Vec3i>,
    pub uvs: Vec<Uv>,
    pub colors: Vec<Rgba>,
    pub indices: Vec<u32>,
}

/// Offset along x of the neighbor probed for face `f`; faces are numbered
/// 0..6 in the order +X, -X, +Y, -Y, +Z, -Z.
pub open spec fn face_dx(f: int) -> int {
    if f == 0 { 1 } else if f == 1 { -1 } else { 0 }
}

/// Offset along y of the neighbor probed for face `f`.
pub open spec fn face_dy(f: int) -> int {
    if f == 2 { 1 } else if f == 3 { -1 } else { 0 }
}

/// Offset along z of the neighbor probed for face `f`.
pub open spec fn face_dz(f: int) -> int {
    if f == 4 { 1 } else if f == 5 { -1 } else { 0 }
}

/// The outward unit normal of face `f`.
pub open spec fn face_normal(f: int) -> Point3 {
    Point3 { x: face_dx(f), y: face_dy(f), z: face_dz(f) }
}

/// Whether the coordinate `(x, y, z)` counts as empty space when seen from a
/// neighboring cell: outside the chunk bounds, or an in-bounds air cell.
pub open spec fn exposed(c: Chunk, x: int, y: int, z: int) -> bool {
    ||| !in_chunk(x, y, z)
    ||| c.block_at(x, y, z).id == AIR_ID
}

/// The face-visibility rule: face `f` of cell `(x, y, z)` is emitted exactly
/// when the neighbor one step along that face's axis is exposed.
pub open spec fn face_visible(c: Chunk, x: int, y: int, z: int, f: int) -> bool {
    exposed(c, x + face_dx(f), y + face_dy(f), z + face_dz(f))
}

/// World coordinate of a cell corner: local coordinate plus the chunk's
/// position scaled by the chunk edge length.
pub open spec fn world_x(c: Chunk, x: int) -> int {
    x + c.position.x * (CHUNK_SIZE as int)
}

pub open spec fn world_y(c: Chunk, y: int) -> int {
    y + c.position.y * (CHUNK_SIZE as int)
}

pub open spec fn world_z(c: Chunk, z: int) -> int {
    z + c.position.z * (CHUNK_SIZE as int)
}

pub open spec fn pt(x: int, y: int, z: int) -> Point3 {
    Point3 { x, y, z }
}

/// The quad emitted for face `f` of cell `(x, y, z)`: corner order and
/// winding are fixed per face so that both triangles wind counter-clockwise
/// when viewed from outside the solid volume.
pub open spec fn quad_for(c: Chunk, x: int, y: int, z: int, f: int) -> Quad {
    let wx = world_x(c, x);
    let wy = world_y(c, y);
    let wz = world_z(c, z);
    let corners = if f == 0 {
        (pt(wx + 1, wy, wz + 1), pt(wx + 1, wy, wz), pt(wx + 1, wy + 1, wz), pt(wx + 1, wy + 1, wz + 1))
    } else if f == 1 {
        (pt(wx, wy, wz), pt(wx, wy, wz + 1), pt(wx, wy + 1, wz + 1), pt(wx, wy + 1, wz))
    } else if f == 2 {
        (pt(wx, wy + 1, wz + 1), pt(wx + 1, wy + 1, wz + 1), pt(wx + 1, wy + 1, wz), pt(wx, wy + 1, wz))
    } else if f == 3 {
        (pt(wx, wy, wz), pt(wx + 1, wy, wz), pt(wx + 1, wy, wz + 1), pt(wx, wy, wz + 1))
    } else if f == 4 {
        (pt(wx, wy, wz + 1), pt(wx + 1, wy, wz + 1), pt(wx + 1, wy + 1, wz + 1), pt(wx, wy + 1, wz + 1))
    } else {
        (pt(wx + 1, wy, wz), pt(wx, wy, wz), pt(wx, wy + 1, wz), pt(wx + 1, wy + 1, wz))
    };
    Quad {
        cell: pt(x, y, z),
        face: f,
        a: corners.0,
        b: corners.1,
        c: corners.2,
        d: corners.3,
        normal: face_normal(f),
        color: c.block_at(x, y, z).color,
    }
}

/// The quads cell `(x, y, z)` emits among its first `f` faces, in face order:
/// one per visible face of a solid cell, none for air.
pub open spec fn cell_quads_upto(c: Chunk, x: int, y: int, z: int, f: int) -> Seq<Quad>
    decreases f,
{
    if f <= 0 {
        Seq::empty()
    } else {
        cell_quads_upto(c, x, y, z, f - 1)
            + if c.solid_at(x, y, z) && face_visible(c, x, y, z, f - 1) {
                seq![quad_for(c, x, y, z, f - 1)]
            } else {
                Seq::empty()
            }
    }
}

/// All quads cell `(x, y, z)` emits.
pub open spec fn cell_quads(c: Chunk, x: int, y: int, z: int) -> Seq<Quad> {
    cell_quads_upto(c, x, y, z, 6)
}

/// The quads of the first `x` cells of row `(y, z)`, in emission order.
pub open spec fn row_quads(c: Chunk, z: int, y: int, x: int) -> Seq<Quad>
    decreases x,
{
    if x <= 0 {
        Seq::empty()
    } else {
        row_quads(c, z, y, x - 1) + cell_quads(c, x - 1, y, z)
    }
}

/// The quads of the first `y` rows of layer `z`, in emission order.
pub open spec fn layer_quads(c: Chunk, z: int, y: int) -> Seq<Quad>
    decreases y,
{
    if y <= 0 {
        Seq::empty()
    } else {
        layer_quads(c, z, y - 1) + row_quads(c, z, y - 1, CHUNK_SIZE as int)
    }
}

/// The quads of the first `z` layers of the chunk, in emission order.
pub open spec fn chunk_quads_upto(c: Chunk, z: int) -> Seq<Quad>
    decreases z,
{
    if z <= 0 {
        Seq::empty()
    } else {
        chunk_quads_upto(c, z - 1) + layer_quads(c, z - 1, CHUNK_SIZE as int)
    }
}

/// Every quad the mesher emits for chunk `c`, in emission order: cells are
/// visited with `x` varying fastest, then `y`, then `z`.
pub open spec fn mesh_quads(c: Chunk) -> Seq<Quad> {
    chunk_quads_upto(c, CHUNK_SIZE as int)
}

/// Whether the four vertices and six indices of quad `k` of the mesh spell
/// out `qs[k]`: corners in order, the quad's normal and color at every
/// vertex, texture coordinates spanning the unit square, and two
/// counter-clockwise triangles `(a, b, c)` and `(a, c, d)`.
pub open spec fn quad_matches(m: ChunkMesh, qs: Seq<Quad>, k: int) -> bool {
    &&& m.positions@[4 * k]@ == qs[k].a
    &&& m.positions@[4 * k + 1]@ == qs[k].b
    &&& m.positions@[4 * k + 2]@ == qs[k].c
    &&& m.positions@[4 * k + 3]@ == qs[k].d
    &&& m.normals@[4 * k]@ == qs[k].normal
    &&& m.normals@[4 * k + 1]@ == qs[k].normal
    &&& m.normals@[4 * k + 2]@ == qs[k].normal
    &&& m.normals@[4 * k + 3]@ == qs[k].normal
    &&& m.uvs@[4 * k] == (Uv { u: 0, v: 0 })
    &&& m.uvs@[4 * k + 1] == (Uv { u: 1, v: 0 })
    &&& m.uvs@[4 * k + 2] == (Uv { u: 1, v: 1 })
    &&& m.uvs@[4 * k + 3] == (Uv { u: 0, v: 1 })
    &&& m.colors@[4 * k] == qs[k].color
    &&& m.colors@[4 * k + 1] == qs[k].color
    &&& m.colors@[4 * k + 2] == qs[k].color
    &&& m.colors@[4 * k + 3] == qs[k].color
    &&& m.indices@[6 * k] as int == 4 * k
    &&& m.indices@[6 * k + 1] as int == 4 * k + 1
    &&& m.indices@[6 * k + 2] as int == 4 * k + 2
    &&& m.indices@[6 * k + 3] as int == 4 * k
    &&& m.indices@[6 * k + 4] as int == 4 * k + 2
    &&& m.indices@[6 * k + 5] as int == 4 * k + 3
}

/// Whether mesh `m` is exactly the quad list `qs` laid out in flat buffers:
/// the four attribute buffers hold four entries per quad, the index buffer
/// six, and every quad matches.
pub open spec fn mesh_is(m: ChunkMesh, qs: Seq<Quad>) -> bool {
    &&& m.positions@.len() == 4 * qs.len()
    &&& m.normals@.len() == 4 * qs.len()
    &&& m.uvs@.len() == 4 * qs.len()
    &&& m.colors@.len() == 4 * qs.len()
    &&& m.indices@.len() == 6 * qs.len()
    &&& forall|k: int| 0 <= k < qs.len() ==> #[trigger] quad_matches(m, qs, k)
}

/// Whether the neighbor coordinate `(x, y, z)` lets a face be rendered:
/// out of chunk bounds, or an in-bounds air cell.
fn should_render_face(chunk: &Chunk, x: i32, y: i32, z: i32) -> (r: bool)
    requires
        chunk.wf(),
    ensures
        r == exposed(*chunk, x as int, y as int, z as int),
{
    if x < 0 || y < 0 || z < 0
        || x >= CHUNK_SIZE as i32 || y >= CHUNK_SIZE as i32 || z >= CHUNK_SIZE as i32 {
        return true;
    }
    chunk.get_block(x as usize, y as usize, z as usize).id == AIR_ID
}

/// Appends one quad to the mesh: four vertices sharing a normal and a color,
/// texture coordinates over the unit square, and two triangles `(a, b, c)`
/// and `(a, c, d)` based at `base_index`.
fn push_quad(
    mesh: &mut ChunkMesh,
    base_index: u32,
    a: Vec3i,
    b: Vec3i,
    c: Vec3i,
    d: Vec3i,
    normal: Vec3i,
    color: Rgba,
    Ghost(qs): Ghost<Seq<Quad>>,
    Ghost(q): Ghost<Quad>,
)
    requires
        mesh_is(*old(mesh), qs),
        base_index as int == 4 * qs.len(),
        4 * qs.len() + 4 <= u32::MAX as int,
        q.a == a@,
        q.b == b@,
        q.c == c@,
        q.d == d@,
        q.normal == normal@,
        q.color == color,
    ensures
        mesh_is(*final(mesh), qs.push(q)),
{
    mesh.positions.push(a);
    mesh.positions.push(b);
    mesh.positions.push(c);
    mesh.positions.push(d);

    mesh.normals.push(normal);
    mesh.normals.push(normal);
    mesh.normals.push(normal);
    mesh.normals.push(normal);

    mesh.uvs.push(Uv { u: 0, v: 0 });
    mesh.uvs.push(Uv { u: 1, v: 0 });
    mesh.uvs.push(Uv { u: 1, v: 1 });
    mesh.uvs.push(Uv { u: 0, v: 1 });

    mesh.colors.push(color);
    mesh.colors.push(color);
    mesh.colors.push(color);
    mesh.colors.push(color);

    mesh.indices.push(base_index);
    mesh.indices.push(base_index + 1);
    mesh.indices.push(base_index + 2);
    mesh.indices.push(base_index);
    mesh.indices.push(base_index + 2);
    mesh.indices.push(base_index + 3);

    proof {
        let qs2 = qs.push(q);
        assert forall|k: int| 0 <= k < qs2.len() implies #[trigger] quad_matches(*final(mesh), qs2, k) by {
            if k < qs.len() {
                assert(quad_matches(*old(mesh), qs, k));
            }
        }
    }
}

/// A cell emits at most one quad per face considered.
pub proof fn lemma_cell_quads_upto_len(c: Chunk, x: int, y: int, z: int, f: int)
    requires
        0 <= f,
    ensures
        cell_quads_upto(c, x, y, z, f).len() <= f,
    decreases f,
{
    if f > 0 {
        lemma_cell_quads_upto_len(c, x, y, z, f - 1);
    }
}

/// A row of `x` cells emits at most `6 * x` quads.
pub proof fn lemma_row_quads_len(c: Chunk, z: int, y: int, x: int)
    requires
        0 <= x,
    ensures
        row_quads(c, z, y, x).len() <= 6 * x,
    decreases x,
{
    if x > 0 {
        lemma_row_quads_len(c, z, y, x - 1);
        lemma_cell_quads_upto_len(c, x - 1, y, z, 6);
    }
}

/// A layer of `y` rows emits at most `96 * y` quads (six faces for each of
/// the `CHUNK_SIZE` cells of a row).
pub proof fn lemma_layer_quads_len(c: Chunk, z: int, y: int)
    requires
        0 <= y,
    ensures
        layer_quads(c, z, y).len() <= 96 * y,
    decreases y,
{
    if y > 0 {
        lemma_layer_quads_len(c, z, y - 1);
        lemma_row_quads_len(c, z, y - 1, CHUNK_SIZE as int);
    }
}

/// The first `z` layers emit at most `1536 * z` quads (six faces for each of
/// the `CHUNK_SIZE * CHUNK_SIZE` cells of a layer).
pub proof fn lemma_chunk_quads_len(c: Chunk, z: int)
    requires
        0 <= z,
    ensures
        chunk_quads_upto(c, z).len() <= 1536 * z,
    decreases z,
{
    if z > 0 {
        lemma_chunk_quads_len(c, z - 1);
        lemma_layer_quads_len(c, z - 1, CHUNK_SIZE as int);
    }
}

/// An air cell emits nothing, whichever faces are considered.
pub proof fn lemma_cell_quads_upto_air(c: Chunk, x: int, y: int, z: int, f: int)
    requires
        0 <= f,
        !c.solid_at(x, y, z),
    ensures
        cell_quads_upto(c, x, y, z, f) == Seq::<Quad>::empty(),
    decreases f,
{
    if f > 0 {
        lemma_cell_quads_upto_air(c, x, y, z, f - 1);
        assert(cell_quads_upto(c, x, y, z, f) =~= Seq::<Quad>::empty());
    }
}

/// World coordinate of a local coordinate: `local + pos * CHUNK_SIZE`,
/// exact in 64 bits for any chunk position.
fn world_coord(local: usize, pos: i32) -> (w: i64)
    requires
        local < CHUNK_SIZE,
    ensures
        w as int == local as int + (pos as int) * (CHUNK_SIZE as int),
{
    proof {
        assert(-0x8_0000_0000_0000 <= (pos as int) * (CHUNK_SIZE as int) <= 0x8_0000_0000_0000)
            by (nonlinear_arith)
            requires
                -0x8000_0000 <= pos as int <= 0x7fff_ffff,
                CHUNK_SIZE == 16,
        ;
    }
    local as i64 + (pos as i64) * (CHUNK_SIZE as i64)
}

/// Emits every visible face of the cell at `(x, y, z)`: appends exactly
/// `cell_quads` of that cell to the mesh.
#[verifier::rlimit(100)]
fn emit_cell(
    chunk: &Chunk,
    x: usize,
    y: usize,
    z: usize,
    mesh: &mut ChunkMesh,
    Ghost(qs): Ghost<Seq<Quad>>,
)
    requires
        chunk.wf(),
        x < CHUNK_SIZE,
        y < CHUNK_SIZE,
        z < CHUNK_SIZE,
        mesh_is(*old(mesh), qs),
        4 * qs.len() + 24 <= u32::MAX as int,
    ensures
        mesh_is(*final(mesh), qs + cell_quads(*chunk, x as int, y as int, z as int)),
{
    let ghost xi = x as int;
    let ghost yi = y as int;
    let ghost zi = z as int;

    let block = chunk.get_block(x, y, z);
    if block.id == AIR_ID {
        proof {
            lemma_cell_quads_upto_air(*chunk, xi, yi, zi, 6);
            assert(qs + cell_quads(*chunk, xi, yi, zi) =~= qs);
        }
        return;
    }

    let wx: i64 = world_coord(x, chunk.position.x);
    let wy: i64 = world_coord(y, chunk.position.y);
    let wz: i64 = world_coord(z, chunk.position.z);

    let ghost mut cur: Seq<Quad> = qs;
    proof {
        assert(cur =~= qs + cell_quads_upto(*chunk, xi, yi, zi, 0));
    }

    // Right face (+X)
    if should_render_face(chunk, x as i32 + 1, y as i32, z as i32) {
        let base_index = mesh.positions.len() as u32;
        let a = Vec3i { x: wx + 1, y: wy, z: wz + 1 };
        let b = Vec3i { x: wx + 1, y: wy, z: wz };
        let c = Vec3i { x: wx + 1, y: wy + 1, z: wz };
        let d = Vec3i { x: wx + 1, y: wy + 1, z: wz + 1 };
        let normal = Vec3i { x: 1, y: 0, z: 0 };
        push_quad(mesh, base_index, a, b, c, d, normal, block.color,
            Ghost(cur), Ghost(quad_for(*chunk, xi, yi, zi, 0)));
        proof { cur = cur.push(quad_for(*chunk, xi, yi, zi, 0)); }
    }
    proof {
        assert(cur =~= qs + cell_quads_upto(*chunk, xi, yi, zi, 1));
    }

    // Left face (-X)
    if should_render_face(chunk, x as i32 - 1, y as i32, z as i32) {
        let base_index = mesh.positions.len() as u32;
        let a = Vec3i { x: wx, y: wy, z: wz };
        let b = Vec3i { x: wx, y: wy, z: wz + 1 };
        let c = Vec3i { x: wx, y: wy + 1, z: wz + 1 };
        let d = Vec3i { x: wx, y: wy + 1, z: wz };
        let normal = Vec3i { x: -1, y: 0, z: 0 };
        push_quad(mesh, base_index, a, b, c, d, normal, block.color,
            Ghost(cur), Ghost(quad_for(*chunk, xi, yi, zi, 1)));
        proof { cur = cur.push(quad_for(*chunk, xi, yi, zi, 1)); }
    }
    proof {
        assert(cur =~= qs + cell_quads_upto(*chunk, xi, yi, zi, 2));
    }

    // Top face (+Y)
    if should_render_face(chunk, x as i32, y as i32 + 1, z as i32) {
        let base_index = mesh.positions.len() as u32;
        let a = Vec3i { x: wx, y: wy + 1, z: wz + 1 };
        let b = Vec3i { x: wx + 1, y: wy + 1, z: wz + 1 };
        let c = Vec3i { x: wx + 1, y: wy + 1, z: wz };
        let d = Vec3i { x: wx, y: wy + 1, z: wz };
        let normal = Vec3i { x: 0, y: 1, z: 0 };
        push_quad(mesh, base_index, a, b, c, d, normal, block.color,
            Ghost(cur), Ghost(quad_for(*chunk, xi, yi, zi, 2)));
        proof { cur = cur.push(quad_for(*chunk, xi, yi, zi, 2)); }
    }
    proof {
        assert(cur =~= qs + cell_quads_upto(*chunk, xi, yi, zi, 3));
    }

    // Bottom face (-Y)
    if should_render_face(chunk, x as i32, y as i32 - 1, z as i32) {
        let base_index = mesh.positions.len() as u32;
        let a = Vec3i { x: wx, y: wy, z: wz };
        let b = Vec3i { x: wx + 1, y: wy, z: wz };
        let c = Vec3i { x: wx + 1, y: wy, z: wz + 1 };
        let d = Vec3i { x: wx, y: wy, z: wz + 1 };
        let normal = Vec3i { x: 0, y: -1, z: 0 };
        push_quad(mesh, base_index, a, b, c, d, normal, block.color,
            Ghost(cur), Ghost(quad_for(*chunk, xi, yi, zi, 3)));
        proof { cur = cur.push(quad_for(*chunk, xi, yi, zi, 3)); }
    }
    proof {
        assert(cur =~= qs + cell_quads_upto(*chunk, xi, yi, zi, 4));
    }

    // Front face (+Z)
    if should_render_face(chunk, x as i32, y as i32, z as i32 + 1) {
        let base_index = mesh.positions.len() as u32;
        let a = Vec3i { x: wx, y: wy, z: wz + 1 };
        let b = Vec3i { x: wx + 1, y: wy, z: wz + 1 };
        let c = Vec3i { x: wx + 1, y: wy + 1, z: wz + 1 };
        let d = Vec3i { x: wx, y: wy + 1, z: wz + 1 };
        let normal = Vec3i { x: 0, y: 0, z: 1 };
        push_quad(mesh, base_index, a, b, c, d, normal, block.color,
            Ghost(cur), Ghost(quad_for(*chunk, xi, yi, zi, 4)));
        proof { cur = cur.push(quad_for(*chunk, xi, yi, zi, 4)); }
    }
    proof {
        assert(cur =~= qs + cell_quads_upto(*chunk, xi, yi, zi, 5));
    }

    // Back face (-Z)
    if should_render_face(chunk, x as i32, y as i32, z as i32 - 1) {
        let base_index = mesh.positions.len() as u32;
        let a = Vec3i { x: wx + 1, y: wy, z: wz };
        let b = Vec3i { x: wx, y: wy, z: wz };
        let c = Vec3i { x: wx, y: wy + 1, z: wz };
        let d = Vec3i { x: wx + 1, y: wy + 1, z: wz };
        let normal = Vec3i { x: 0, y: 0, z: -1 };
        push_quad(mesh, base_index, a, b, c, d, normal, block.color,
            Ghost(cur), Ghost(quad_for(*chunk, xi, yi, zi, 5)));
        proof { cur = cur.push(quad_for(*chunk, xi, yi, zi, 5)); }
    }
    proof {
        assert(cur =~= qs + cell_quads_upto(*chunk, xi, yi, zi, 6));
    }
}

/// Meshes one chunk: a pure function of the chunk's blocks and position.
///
/// The returned buffers spell out exactly `mesh_quads(*chunk)`: one quad per
/// visible face of each solid cell, visited with `x` varying fastest, then
/// `y`, then `z`.
pub fn generate_mesh_for_chunk(chunk: &Chunk) -> (m: ChunkMesh)
    requires
        chunk.wf(),
    ensures
        mesh_is(m, mesh_quads(*chunk)),
{
    // worst case: six quads of four vertices (six indices) per cell
    let mut mesh = ChunkMesh {
        positions: Vec::with_capacity(CHUNK_VOLUME * 6 * 4),
        normals: Vec::with_capacity(CHUNK_VOLUME * 6 * 4),
        uvs: Vec::with_capacity(CHUNK_VOLUME * 6 * 4),
        colors: Vec::with_capacity(CHUNK_VOLUME * 6 * 4),
        indices: Vec::with_capacity(CHUNK_VOLUME * 6 * 6),
    };
    let ghost c = *chunk;
    for z in 0..CHUNK_SIZE
        invariant
            chunk.wf(),
            c == *chunk,
            mesh_is(mesh, chunk_quads_upto(c, z as int)),
    {
        proof {
            assert(chunk_quads_upto(c, z as int) + layer_quads(c, z as int, 0)
                =~= chunk_quads_upto(c, z as int));
        }
        for y in 0..CHUNK_SIZE
            invariant
                chunk.wf(),
                c == *chunk,
                z < CHUNK_SIZE,
                mesh_is(mesh, chunk_quads_upto(c, z as int) + layer_quads(c, z as int, y as int)),
        {
            proof {
                assert(chunk_quads_upto(c, z as int) + layer_quads(c, z as int, y as int)
                    + row_quads(c, z as int, y as int, 0)
                    =~= chunk_quads_upto(c, z as int) + layer_quads(c, z as int, y as int));
            }
            for x in 0..CHUNK_SIZE
                invariant
                    chunk.wf(),
                    c == *chunk,
                    z < CHUNK_SIZE,
                    y < CHUNK_SIZE,
                    mesh_is(mesh, chunk_quads_upto(c, z as int) + layer_quads(c, z as int, y as int)
                        + row_quads(c, z as int, y as int, x as int)),
            {
                let ghost qs = chunk_quads_upto(c, z as int) + layer_quads(c, z as int, y as int)
                    + row_quads(c, z as int, y as int, x as int);
                proof {
                    lemma_chunk_quads_len(c, z as int);
                    lemma_layer_quads_len(c, z as int, y as int);
                    lemma_row_quads_len(c, z as int, y as int, x as int);
                }
                emit_cell(chunk, x, y, z, &mut mesh, Ghost(qs));
                proof {
                    assert(qs + cell_quads(c, x as int, y as int, z as int)
                        =~= chunk_quads_upto(c, z as int) + layer_quads(c, z as int, y as int)
                            + row_quads(c, z as int, y as int, x as int + 1));
                }
            }
            proof {
                assert(chunk_quads_upto(c, z as int) + layer_quads(c, z as int, y as int)
                    + row_quads(c, z as int, y as int, CHUNK_SIZE as int)
                    =~= chunk_quads_upto(c, z as int) + layer_quads(c, z as int, y as int + 1));
            }
        }
        proof {
            assert(chunk_quads_upto(c, z as int) + layer_quads(c, z as int, CHUNK_SIZE as int)
                =~= chunk_quads_upto(c, z as int + 1));
        }
    }
    mesh
}

} // verus!
