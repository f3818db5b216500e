//! Properties of the mesher, proved once and for all chunks: which quads the
//! mesh holds, their winding, their colors, and the face counts of the basic
//! configurations.

use vstd::prelude::*;

use crate::chunk::{Chunk, in_chunk, flat_index};
use crate::mesher::{
    Quad, Point3, ChunkMesh, pt, quad_for, face_normal, face_visible, face_dx, face_dy, face_dz,
    cell_quads_upto, cell_quads, row_quads, layer_quads, chunk_quads_upto, mesh_quads, mesh_is,
    quad_matches, lemma_cell_quads_upto_air,
};
use crate::types::CHUNK_SIZE;

verus! {

/// The difference of two points, componentwise.
pub open spec fn psub(u: Point3, v: Point3) -> Point3 {
    pt(u.x - v.x, u.y - v.y, u.z - v.z)
}

/// The cross product of two integer vectors.
pub open spec fn pcross(u: Point3, v: Point3) -> Point3 {
    pt(
        u.y * v.z - u.z * v.y,
        u.z * v.x - u.x * v.z,
        u.x * v.y - u.y * v.x,
    )
}

/// The outward-winding invariant of one quad: the cross products of the
/// edges of both of its triangles, `(a, b, c)` and `(a, c, d)`, equal the
/// quad's declared normal exactly.
pub open spec fn well_oriented(q: Quad) -> bool {
    &&& pcross(psub(q.b, q.a), psub(q.c, q.a)) == q.normal
    &&& pcross(psub(q.c, q.a), psub(q.d, q.a)) == q.normal
}

/// Where a quad comes from: a solid, in-bounds cell and a visible face, of
/// which the quad is exactly the face's quad.
pub open spec fn quad_provenance(c: Chunk, q: Quad) -> bool {
    &&& in_chunk(q.cell.x, q.cell.y, q.cell.z)
    &&& 0 <= q.face < 6
    &&& c.solid_at(q.cell.x, q.cell.y, q.cell.z)
    &&& face_visible(c, q.cell.x, q.cell.y, q.cell.z, q.face)
    &&& q == quad_for(c, q.cell.x, q.cell.y, q.cell.z, q.face)
}

proof fn lemma_cell_quads_all(c: Chunk, x: int, y: int, z: int, f: int, p: spec_fn(Quad) -> bool)
    requires
        0 <= f <= 6,
        forall|ff: int|
            0 <= ff < f && c.solid_at(x, y, z) && face_visible(c, x, y, z, ff)
                ==> #[trigger] p(quad_for(c, x, y, z, ff)),
    ensures
        forall|i: int| 0 <= i < cell_quads_upto(c, x, y, z, f).len()
            ==> #[trigger] p(cell_quads_upto(c, x, y, z, f)[i]),
    decreases f,
{
    if f > 0 {
        lemma_cell_quads_all(c, x, y, z, f - 1, p);
        let prev = cell_quads_upto(c, x, y, z, f - 1);
        let cur = cell_quads_upto(c, x, y, z, f);
        assert forall|i: int| 0 <= i < cur.len() implies #[trigger] p(cur[i]) by {
            if i < prev.len() {
                assert(cur[i] == prev[i]);
            } else {
                assert(cur[i] == quad_for(c, x, y, z, f - 1));
            }
        }
    }
}

proof fn lemma_row_quads_all(c: Chunk, z: int, y: int, x: int, p: spec_fn(Quad) -> bool)
    requires
        0 <= x,
        forall|xx: int, ff: int|
            0 <= xx < x && 0 <= ff < 6 && c.solid_at(xx, y, z) && face_visible(c, xx, y, z, ff)
                ==> #[trigger] p(quad_for(c, xx, y, z, ff)),
    ensures
        forall|i: int| 0 <= i < row_quads(c, z, y, x).len()
            ==> #[trigger] p(row_quads(c, z, y, x)[i]),
    decreases x,
{
    if x > 0 {
        lemma_row_quads_all(c, z, y, x - 1, p);
        lemma_cell_quads_all(c, x - 1, y, z, 6, p);
        let prev = row_quads(c, z, y, x - 1);
        let tail = cell_quads(c, x - 1, y, z);
        let cur = row_quads(c, z, y, x);
        assert forall|i: int| 0 <= i < cur.len() implies #[trigger] p(cur[i]) by {
            if i < prev.len() {
                assert(cur[i] == prev[i]);
            } else {
                assert(cur[i] == tail[i - prev.len()]);
            }
        }
    }
}

proof fn lemma_layer_quads_all(c: Chunk, z: int, y: int, p: spec_fn(Quad) -> bool)
    requires
        0 <= y,
        forall|yy: int, xx: int, ff: int|
            0 <= xx < CHUNK_SIZE as int && 0 <= yy < y && 0 <= ff < 6
                && c.solid_at(xx, yy, z) && face_visible(c, xx, yy, z, ff)
                ==> #[trigger] p(quad_for(c, xx, yy, z, ff)),
    ensures
        forall|i: int| 0 <= i < layer_quads(c, z, y).len()
            ==> #[trigger] p(layer_quads(c, z, y)[i]),
    decreases y,
{
    if y > 0 {
        lemma_layer_quads_all(c, z, y - 1, p);
        lemma_row_quads_all(c, z, y - 1, CHUNK_SIZE as int, p);
        let prev = layer_quads(c, z, y - 1);
        let tail = row_quads(c, z, y - 1, CHUNK_SIZE as int);
        let cur = layer_quads(c, z, y);
        assert forall|i: int| 0 <= i < cur.len() implies #[trigger] p(cur[i]) by {
            if i < prev.len() {
                assert(cur[i] == prev[i]);
            } else {
                assert(cur[i] == tail[i - prev.len()]);
            }
        }
    }
}

proof fn lemma_chunk_quads_all(c: Chunk, z: int, p: spec_fn(Quad) -> bool)
    requires
        0 <= z,
        forall|zz: int, yy: int, xx: int, ff: int|
            0 <= xx < CHUNK_SIZE as int && 0 <= yy < CHUNK_SIZE as int && 0 <= zz < z
                && 0 <= ff < 6 && c.solid_at(xx, yy, zz) && face_visible(c, xx, yy, zz, ff)
                ==> #[trigger] p(quad_for(c, xx, yy, zz, ff)),
    ensures
        forall|i: int| 0 <= i < chunk_quads_upto(c, z).len()
            ==> #[trigger] p(chunk_quads_upto(c, z)[i]),
    decreases z,
{
    if z > 0 {
        lemma_chunk_quads_all(c, z - 1, p);
        lemma_layer_quads_all(c, z - 1, CHUNK_SIZE as int, p);
        let prev = chunk_quads_upto(c, z - 1);
        let tail = layer_quads(c, z - 1, CHUNK_SIZE as int);
        let cur = chunk_quads_upto(c, z);
        assert forall|i: int| 0 <= i < cur.len() implies #[trigger] p(cur[i]) by {
            if i < prev.len() {
                assert(cur[i] == prev[i]);
            } else {
                assert(cur[i] == tail[i - prev.len()]);
            }
        }
    }
}

/// Every quad the mesher emits satisfies any predicate that holds of every
/// quad a solid cell's visible face could produce.
pub proof fn lemma_mesh_quads_all(c: Chunk, p: spec_fn(Quad) -> bool)
    requires
        forall|x: int, y: int, z: int, f: int|
            in_chunk(x, y, z) && 0 <= f < 6 && c.solid_at(x, y, z) && face_visible(c, x, y, z, f)
                ==> #[trigger] p(quad_for(c, x, y, z, f)),
    ensures
        forall|i: int| 0 <= i < mesh_quads(c).len() ==> #[trigger] p(mesh_quads(c)[i]),
{
    lemma_chunk_quads_all(c, CHUNK_SIZE as int, p);
}

/// Every emitted quad belongs to a solid, in-bounds cell and one of its
/// visible faces, and is exactly that face's quad.
pub proof fn lemma_mesh_quads_provenance(c: Chunk)
    ensures
        forall|i: int| 0 <= i < mesh_quads(c).len()
            ==> quad_provenance(c, #[trigger] mesh_quads(c)[i]),
{
    let p = |q: Quad| quad_provenance(c, q);
    assert forall|x: int, y: int, z: int, f: int|
        in_chunk(x, y, z) && 0 <= f < 6 && c.solid_at(x, y, z) && face_visible(c, x, y, z, f)
        implies #[trigger] p(quad_for(c, x, y, z, f)) by {
        assert(quad_for(c, x, y, z, f).cell == pt(x, y, z));
    }
    lemma_mesh_quads_all(c, p);
    assert forall|i: int| 0 <= i < mesh_quads(c).len()
        implies quad_provenance(c, #[trigger] mesh_quads(c)[i]) by {
        assert(p(mesh_quads(c)[i]));
    }
}

/// The quad of any face is well oriented: both of its triangles wind
/// counter-clockwise seen from outside, so their edge cross products point
/// along the declared normal.
pub proof fn lemma_quad_for_oriented(c: Chunk, x: int, y: int, z: int, f: int)
    requires
        0 <= f < 6,
    ensures
        well_oriented(quad_for(c, x, y, z, f)),
{
    let q = quad_for(c, x, y, z, f);
    if f == 0 {
        assert(psub(q.b, q.a) == pt(0, 0, -1));
        assert(psub(q.c, q.a) == pt(0, 1, -1));
        assert(psub(q.d, q.a) == pt(0, 1, 0));
        assert(pcross(pt(0, 0, -1), pt(0, 1, -1)) == pt(1, 0, 0)) by (nonlinear_arith);
        assert(pcross(pt(0, 1, -1), pt(0, 1, 0)) == pt(1, 0, 0)) by (nonlinear_arith);
    } else if f == 1 {
        assert(psub(q.b, q.a) == pt(0, 0, 1));
        assert(psub(q.c, q.a) == pt(0, 1, 1));
        assert(psub(q.d, q.a) == pt(0, 1, 0));
        assert(pcross(pt(0, 0, 1), pt(0, 1, 1)) == pt(-1, 0, 0)) by (nonlinear_arith);
        assert(pcross(pt(0, 1, 1), pt(0, 1, 0)) == pt(-1, 0, 0)) by (nonlinear_arith);
    } else if f == 2 {
        assert(psub(q.b, q.a) == pt(1, 0, 0));
        assert(psub(q.c, q.a) == pt(1, 0, -1));
        assert(psub(q.d, q.a) == pt(0, 0, -1));
        assert(pcross(pt(1, 0, 0), pt(1, 0, -1)) == pt(0, 1, 0)) by (nonlinear_arith);
        assert(pcross(pt(1, 0, -1), pt(0, 0, -1)) == pt(0, 1, 0)) by (nonlinear_arith);
    } else if f == 3 {
        assert(psub(q.b, q.a) == pt(1, 0, 0));
        assert(psub(q.c, q.a) == pt(1, 0, 1));
        assert(psub(q.d, q.a) == pt(0, 0, 1));
        assert(pcross(pt(1, 0, 0), pt(1, 0, 1)) == pt(0, -1, 0)) by (nonlinear_arith);
        assert(pcross(pt(1, 0, 1), pt(0, 0, 1)) == pt(0, -1, 0)) by (nonlinear_arith);
    } else if f == 4 {
        assert(psub(q.b, q.a) == pt(1, 0, 0));
        assert(psub(q.c, q.a) == pt(1, 1, 0));
        assert(psub(q.d, q.a) == pt(0, 1, 0));
        assert(pcross(pt(1, 0, 0), pt(1, 1, 0)) == pt(0, 0, 1)) by (nonlinear_arith);
        assert(pcross(pt(1, 1, 0), pt(0, 1, 0)) == pt(0, 0, 1)) by (nonlinear_arith);
    } else {
        assert(psub(q.b, q.a) == pt(-1, 0, 0));
        assert(psub(q.c, q.a) == pt(-1, 1, 0));
        assert(psub(q.d, q.a) == pt(0, 1, 0));
        assert(pcross(pt(-1, 0, 0), pt(-1, 1, 0)) == pt(0, 0, -1)) by (nonlinear_arith);
        assert(pcross(pt(-1, 1, 0), pt(0, 1, 0)) == pt(0, 0, -1)) by (nonlinear_arith);
    }
}

/// Outward-winding invariant: every triangle of every emitted quad, for all
/// six face directions, winds counter-clockwise seen from outside the solid
/// volume — the cross product of its edges equals the declared normal.
pub proof fn lemma_winding_outward(c: Chunk)
    ensures
        forall|i: int| 0 <= i < mesh_quads(c).len()
            ==> well_oriented(#[trigger] mesh_quads(c)[i]),
{
    let p = |q: Quad| well_oriented(q);
    assert forall|x: int, y: int, z: int, f: int|
        in_chunk(x, y, z) && 0 <= f < 6 && c.solid_at(x, y, z) && face_visible(c, x, y, z, f)
        implies #[trigger] p(quad_for(c, x, y, z, f)) by {
        lemma_quad_for_oriented(c, x, y, z, f);
    }
    lemma_mesh_quads_all(c, p);
    assert forall|i: int| 0 <= i < mesh_quads(c).len()
        implies well_oriented(#[trigger] mesh_quads(c)[i]) by {
        assert(p(mesh_quads(c)[i]));
    }
}

/// Color propagation: all four vertices of quad `k` of the mesh carry,
/// unchanged, the registered color of the solid block the quad was emitted
/// for.
pub open spec fn quad_color_carried(c: Chunk, m: ChunkMesh, k: int) -> bool {
    let q = mesh_quads(c)[k];
    &&& c.solid_at(q.cell.x, q.cell.y, q.cell.z)
    &&& q.color == c.block_at(q.cell.x, q.cell.y, q.cell.z).color
    &&& m.colors@[4 * k] == q.color
    &&& m.colors@[4 * k + 1] == q.color
    &&& m.colors@[4 * k + 2] == q.color
    &&& m.colors@[4 * k + 3] == q.color
}

/// Color propagation: in a mesh generated for `c`, every vertex of every
/// quad carries the emitting block's color, with no averaging or
/// interpolation with neighbors.
pub proof fn lemma_color_propagation(c: Chunk, m: ChunkMesh)
    requires
        mesh_is(m, mesh_quads(c)),
    ensures
        forall|k: int| 0 <= k < mesh_quads(c).len() ==> #[trigger] quad_color_carried(c, m, k),
{
    lemma_mesh_quads_provenance(c);
    assert forall|k: int| 0 <= k < mesh_quads(c).len()
        implies #[trigger] quad_color_carried(c, m, k) by {
        assert(quad_provenance(c, mesh_quads(c)[k]));
        assert(quad_matches(m, mesh_quads(c), k));
    }
}

/// The cells whose quads may appear in a prefix, given that every cell other
/// than `p1` and `p2` emits nothing: `cell_quads` of the cell if it lies in
/// the prefix, nothing otherwise.
pub open spec fn maybe_cell(c: Chunk, p: Point3, present: bool) -> Seq<Quad> {
    if present {
        cell_quads(c, p.x, p.y, p.z)
    } else {
        Seq::empty()
    }
}

/// At most two cells of `c` emit quads, and their cells' visit order follows
/// their flat indices.
pub open spec fn only_two_cells_emit(c: Chunk, p1: Point3, p2: Point3) -> bool {
    &&& in_chunk(p1.x, p1.y, p1.z)
    &&& in_chunk(p2.x, p2.y, p2.z)
    &&& flat_index(p1.x, p1.y, p1.z) < flat_index(p2.x, p2.y, p2.z)
    &&& forall|xx: int, yy: int, zz: int|
        in_chunk(xx, yy, zz) && pt(xx, yy, zz) != p1 && pt(xx, yy, zz) != p2
            ==> #[trigger] cell_quads(c, xx, yy, zz) == Seq::<Quad>::empty()
}

proof fn lemma_row_quads_two(c: Chunk, p1: Point3, p2: Point3, z: int, y: int, x: int)
    requires
        only_two_cells_emit(c, p1, p2),
        0 <= x <= CHUNK_SIZE as int,
        0 <= y < CHUNK_SIZE as int,
        0 <= z < CHUNK_SIZE as int,
    ensures
        row_quads(c, z, y, x) == maybe_cell(c, p1, p1.z == z && p1.y == y && p1.x < x)
            + maybe_cell(c, p2, p2.z == z && p2.y == y && p2.x < x),
    decreases x,
{
    if x == 0 {
        assert(row_quads(c, z, y, 0)
            =~= maybe_cell(c, p1, false) + maybe_cell(c, p2, false));
    } else {
        lemma_row_quads_two(c, p1, p2, z, y, x - 1);
        let prev = row_quads(c, z, y, x - 1);
        let tail = cell_quads(c, x - 1, y, z);
        if pt(x - 1, y, z) == p1 {
            assert(prev + tail
                =~= maybe_cell(c, p1, p1.z == z && p1.y == y && p1.x < x)
                    + maybe_cell(c, p2, p2.z == z && p2.y == y && p2.x < x));
        } else if pt(x - 1, y, z) == p2 {
            assert(prev + tail
                =~= maybe_cell(c, p1, p1.z == z && p1.y == y && p1.x < x)
                    + maybe_cell(c, p2, p2.z == z && p2.y == y && p2.x < x));
        } else {
            assert(tail == Seq::<Quad>::empty());
            assert(prev + tail
                =~= maybe_cell(c, p1, p1.z == z && p1.y == y && p1.x < x)
                    + maybe_cell(c, p2, p2.z == z && p2.y == y && p2.x < x));
        }
    }
}

proof fn lemma_layer_quads_two(c: Chunk, p1: Point3, p2: Point3, z: int, y: int)
    requires
        only_two_cells_emit(c, p1, p2),
        0 <= y <= CHUNK_SIZE as int,
        0 <= z < CHUNK_SIZE as int,
    ensures
        layer_quads(c, z, y) == maybe_cell(c, p1, p1.z == z && p1.y < y)
            + maybe_cell(c, p2, p2.z == z && p2.y < y),
    decreases y,
{
    if y == 0 {
        assert(layer_quads(c, z, 0)
            =~= maybe_cell(c, p1, false) + maybe_cell(c, p2, false));
    } else {
        lemma_layer_quads_two(c, p1, p2, z, y - 1);
        lemma_row_quads_two(c, p1, p2, z, y - 1, CHUNK_SIZE as int);
        let prev = layer_quads(c, z, y - 1);
        let row = row_quads(c, z, y - 1, CHUNK_SIZE as int);
        assert(prev + row
            =~= maybe_cell(c, p1, p1.z == z && p1.y < y)
                + maybe_cell(c, p2, p2.z == z && p2.y < y));
    }
}

proof fn lemma_chunk_quads_two(c: Chunk, p1: Point3, p2: Point3, z: int)
    requires
        only_two_cells_emit(c, p1, p2),
        0 <= z <= CHUNK_SIZE as int,
    ensures
        chunk_quads_upto(c, z) == maybe_cell(c, p1, p1.z < z) + maybe_cell(c, p2, p2.z < z),
    decreases z,
{
    if z == 0 {
        assert(chunk_quads_upto(c, 0)
            =~= maybe_cell(c, p1, false) + maybe_cell(c, p2, false));
    } else {
        lemma_chunk_quads_two(c, p1, p2, z - 1);
        lemma_layer_quads_two(c, p1, p2, z - 1, CHUNK_SIZE as int);
        let prev = chunk_quads_upto(c, z - 1);
        let layer = layer_quads(c, z - 1, CHUNK_SIZE as int);
        assert(prev + layer
            =~= maybe_cell(c, p1, p1.z < z) + maybe_cell(c, p2, p2.z < z));
    }
}

/// When every cell except `p1` and `p2` emits nothing, the mesh is exactly
/// `p1`'s quads followed by `p2`'s.
pub proof fn lemma_mesh_quads_two(c: Chunk, p1: Point3, p2: Point3)
    requires
        only_two_cells_emit(c, p1, p2),
    ensures
        mesh_quads(c) == cell_quads(c, p1.x, p1.y, p1.z) + cell_quads(c, p2.x, p2.y, p2.z),
{
    lemma_chunk_quads_two(c, p1, p2, CHUNK_SIZE as int);
}

/// A solid cell all of whose faces are visible emits exactly its six face
/// quads, in face order.
pub proof fn lemma_cell_quads_full(c: Chunk, x: int, y: int, z: int)
    requires
        c.solid_at(x, y, z),
        forall|f: int| 0 <= f < 6 ==> #[trigger] face_visible(c, x, y, z, f),
    ensures
        cell_quads(c, x, y, z).len() == 6,
        forall|f: int| 0 <= f < 6 ==> #[trigger] cell_quads(c, x, y, z)[f] == quad_for(c, x, y, z, f),
{
    assert(cell_quads_upto(c, x, y, z, 0) =~= Seq::<Quad>::empty());
    assert(cell_quads_upto(c, x, y, z, 1)
        =~= seq![quad_for(c, x, y, z, 0)]);
    assert(cell_quads_upto(c, x, y, z, 2)
        =~= seq![quad_for(c, x, y, z, 0), quad_for(c, x, y, z, 1)]);
    assert(cell_quads_upto(c, x, y, z, 3)
        =~= seq![quad_for(c, x, y, z, 0), quad_for(c, x, y, z, 1), quad_for(c, x, y, z, 2)]);
    assert(cell_quads_upto(c, x, y, z, 4)
        =~= seq![quad_for(c, x, y, z, 0), quad_for(c, x, y, z, 1), quad_for(c, x, y, z, 2),
            quad_for(c, x, y, z, 3)]);
    assert(cell_quads_upto(c, x, y, z, 5)
        =~= seq![quad_for(c, x, y, z, 0), quad_for(c, x, y, z, 1), quad_for(c, x, y, z, 2),
            quad_for(c, x, y, z, 3), quad_for(c, x, y, z, 4)]);
    assert(cell_quads_upto(c, x, y, z, 6)
        =~= seq![quad_for(c, x, y, z, 0), quad_for(c, x, y, z, 1), quad_for(c, x, y, z, 2),
            quad_for(c, x, y, z, 3), quad_for(c, x, y, z, 4), quad_for(c, x, y, z, 5)]);
}

/// A solid cell emits one quad per visible face: its quad count is the sum
/// of its six face visibilities.
pub proof fn lemma_cell_quads_counts(c: Chunk, x: int, y: int, z: int)
    requires
        c.solid_at(x, y, z),
    ensures
        cell_quads(c, x, y, z).len() == (if face_visible(c, x, y, z, 0) { 1int } else { 0 })
            + (if face_visible(c, x, y, z, 1) { 1int } else { 0 })
            + (if face_visible(c, x, y, z, 2) { 1int } else { 0 })
            + (if face_visible(c, x, y, z, 3) { 1int } else { 0 })
            + (if face_visible(c, x, y, z, 4) { 1int } else { 0 })
            + (if face_visible(c, x, y, z, 5) { 1int } else { 0 }),
{
    assert(cell_quads_upto(c, x, y, z, 0).len() == 0);
    assert(cell_quads_upto(c, x, y, z, 1).len()
        == (if face_visible(c, x, y, z, 0) { 1int } else { 0 }));
    assert(cell_quads_upto(c, x, y, z, 2).len() == cell_quads_upto(c, x, y, z, 1).len()
        + (if face_visible(c, x, y, z, 1) { 1int } else { 0 }));
    assert(cell_quads_upto(c, x, y, z, 3).len() == cell_quads_upto(c, x, y, z, 2).len()
        + (if face_visible(c, x, y, z, 2) { 1int } else { 0 }));
    assert(cell_quads_upto(c, x, y, z, 4).len() == cell_quads_upto(c, x, y, z, 3).len()
        + (if face_visible(c, x, y, z, 3) { 1int } else { 0 }));
    assert(cell_quads_upto(c, x, y, z, 5).len() == cell_quads_upto(c, x, y, z, 4).len()
        + (if face_visible(c, x, y, z, 4) { 1int } else { 0 }));
    assert(cell_quads_upto(c, x, y, z, 6).len() == cell_quads_upto(c, x, y, z, 5).len()
        + (if face_visible(c, x, y, z, 5) { 1int } else { 0 }));
}

/// An all-air chunk meshes to nothing: no quads, no vertices, no indices.
pub proof fn lemma_all_air_empty_mesh(c: Chunk, m: ChunkMesh)
    requires
        forall|x: int, y: int, z: int| in_chunk(x, y, z) ==> !c.solid_at(x, y, z),
        mesh_is(m, mesh_quads(c)),
    ensures
        mesh_quads(c).len() == 0,
        m.positions@.len() == 0,
        m.normals@.len() == 0,
        m.uvs@.len() == 0,
        m.colors@.len() == 0,
        m.indices@.len() == 0,
{
    assert forall|xx: int, yy: int, zz: int|
        in_chunk(xx, yy, zz) && pt(xx, yy, zz) != pt(0, 0, 0) && pt(xx, yy, zz) != pt(1, 0, 0)
        implies #[trigger] cell_quads(c, xx, yy, zz) == Seq::<Quad>::empty() by {
        lemma_cell_quads_upto_air(c, xx, yy, zz, 6);
    }
    lemma_mesh_quads_two(c, pt(0, 0, 0), pt(1, 0, 0));
    assert(in_chunk(0, 0, 0));
    assert(!c.solid_at(0, 0, 0));
    assert(in_chunk(1, 0, 0));
    assert(!c.solid_at(1, 0, 0));
    lemma_cell_quads_upto_air(c, 0, 0, 0, 6);
    lemma_cell_quads_upto_air(c, 1, 0, 0, 6);
    assert(mesh_quads(c) =~= Seq::<Quad>::empty());
}

/// A single solid block with all neighbors empty (or outside the chunk)
/// meshes to exactly six quads — one per face, in face order, each carrying
/// one of the six distinct axis-aligned unit normals — hence 24 vertices and
/// 36 indices.
pub proof fn lemma_single_block_six_faces(c: Chunk, m: ChunkMesh, bx: int, by: int, bz: int)
    requires
        in_chunk(bx, by, bz),
        c.solid_at(bx, by, bz),
        forall|x: int, y: int, z: int|
            in_chunk(x, y, z) && (x, y, z) != (bx, by, bz) ==> !c.solid_at(x, y, z),
        mesh_is(m, mesh_quads(c)),
    ensures
        mesh_quads(c).len() == 6,
        m.positions@.len() == 24,
        m.indices@.len() == 36,
        forall|f: int| 0 <= f < 6 ==> #[trigger] mesh_quads(c)[f] == quad_for(c, bx, by, bz, f),
        forall|f: int| 0 <= f < 6 ==> (#[trigger] mesh_quads(c)[f]).normal == face_normal(f),
        forall|f1: int, f2: int|
            0 <= f1 < 6 && 0 <= f2 < 6 && f1 != f2
                ==> face_normal(f1) != face_normal(f2),
{
    let b = pt(bx, by, bz);
    assert forall|f: int| 0 <= f < 6 implies #[trigger] face_visible(c, bx, by, bz, f) by {
        let nx = bx + face_dx(f);
        let ny = by + face_dy(f);
        let nz = bz + face_dz(f);
        if in_chunk(nx, ny, nz) {
            assert((nx, ny, nz) != (bx, by, bz));
            assert(!c.solid_at(nx, ny, nz));
        }
    }
    lemma_cell_quads_full(c, bx, by, bz);
    assert forall|xx: int, yy: int, zz: int|
        in_chunk(xx, yy, zz) && pt(xx, yy, zz) != b && pt(xx, yy, zz) != pt(0, 0, 0)
            && pt(xx, yy, zz) != pt(15, 15, 15)
        implies (#[trigger] cell_quads(c, xx, yy, zz)) == Seq::<Quad>::empty() by {
        assert((xx, yy, zz) != (bx, by, bz));
        lemma_cell_quads_upto_air(c, xx, yy, zz, 6);
    }
    if bx == 15 && by == 15 && bz == 15 {
        assert(in_chunk(0, 0, 0));
        assert((0int, 0int, 0int) != (bx, by, bz));
        assert(!c.solid_at(0, 0, 0));
        lemma_cell_quads_upto_air(c, 0, 0, 0, 6);
        assert forall|xx: int, yy: int, zz: int|
            in_chunk(xx, yy, zz) && pt(xx, yy, zz) != pt(0, 0, 0) && pt(xx, yy, zz) != b
            implies (#[trigger] cell_quads(c, xx, yy, zz)) == Seq::<Quad>::empty() by {
            assert((xx, yy, zz) != (bx, by, bz));
            lemma_cell_quads_upto_air(c, xx, yy, zz, 6);
        }
        lemma_mesh_quads_two(c, pt(0, 0, 0), b);
        assert(mesh_quads(c) =~= cell_quads(c, bx, by, bz));
    } else {
        assert(in_chunk(15, 15, 15));
        assert((15int, 15int, 15int) != (bx, by, bz));
        assert(!c.solid_at(15, 15, 15));
        lemma_cell_quads_upto_air(c, 15, 15, 15, 6);
        assert forall|xx: int, yy: int, zz: int|
            in_chunk(xx, yy, zz) && pt(xx, yy, zz) != b && pt(xx, yy, zz) != pt(15, 15, 15)
            implies (#[trigger] cell_quads(c, xx, yy, zz)) == Seq::<Quad>::empty() by {
            assert((xx, yy, zz) != (bx, by, bz));
            lemma_cell_quads_upto_air(c, xx, yy, zz, 6);
        }
        lemma_mesh_quads_two(c, b, pt(15, 15, 15));
        assert(mesh_quads(c) =~= cell_quads(c, bx, by, bz));
    }
}

/// Two solid blocks adjacent along one axis, everything else empty: the two
/// facing quads are suppressed on both sides, so the mesh holds exactly
/// 10 quads — 40 vertices and 60 indices — not 12.
pub proof fn lemma_adjacent_pair_ten_faces(
    c: Chunk,
    m: ChunkMesh,
    x1: int, y1: int, z1: int,
    x2: int, y2: int, z2: int,
)
    requires
        in_chunk(x1, y1, z1),
        in_chunk(x2, y2, z2),
        c.solid_at(x1, y1, z1),
        c.solid_at(x2, y2, z2),
        (x2 == x1 + 1 && y2 == y1 && z2 == z1)
            || (x2 == x1 && y2 == y1 + 1 && z2 == z1)
            || (x2 == x1 && y2 == y1 && z2 == z1 + 1),
        forall|x: int, y: int, z: int|
            in_chunk(x, y, z) && (x, y, z) != (x1, y1, z1) && (x, y, z) != (x2, y2, z2)
                ==> !c.solid_at(x, y, z),
        mesh_is(m, mesh_quads(c)),
    ensures
        mesh_quads(c).len() == 10,
        m.positions@.len() == 40,
        m.indices@.len() == 60,
{
    let p1 = pt(x1, y1, z1);
    let p2 = pt(x2, y2, z2);

    // The face of each block turned toward the other is suppressed; every
    // other neighbor is air or out of bounds, so those faces are visible.
    let blocked1: int = if x2 == x1 + 1 { 0 } else if y2 == y1 + 1 { 2 } else { 4 };
    let blocked2: int = blocked1 + 1;

    assert forall|f: int| 0 <= f < 6 && f != blocked1
        implies #[trigger] face_visible(c, x1, y1, z1, f) by {
        let nx = x1 + face_dx(f);
        let ny = y1 + face_dy(f);
        let nz = z1 + face_dz(f);
        if in_chunk(nx, ny, nz) {
            assert((nx, ny, nz) != (x1, y1, z1));
            assert((nx, ny, nz) != (x2, y2, z2));
            assert(!c.solid_at(nx, ny, nz));
        }
    }
    assert(x1 + face_dx(blocked1) == x2 && y1 + face_dy(blocked1) == y2
        && z1 + face_dz(blocked1) == z2);
    assert(!face_visible(c, x1, y1, z1, blocked1));

    assert forall|f: int| 0 <= f < 6 && f != blocked2
        implies #[trigger] face_visible(c, x2, y2, z2, f) by {
        let nx = x2 + face_dx(f);
        let ny = y2 + face_dy(f);
        let nz = z2 + face_dz(f);
        if in_chunk(nx, ny, nz) {
            assert((nx, ny, nz) != (x1, y1, z1));
            assert((nx, ny, nz) != (x2, y2, z2));
            assert(!c.solid_at(nx, ny, nz));
        }
    }
    assert(x2 + face_dx(blocked2) == x1 && y2 + face_dy(blocked2) == y1
        && z2 + face_dz(blocked2) == z1);
    assert(!face_visible(c, x2, y2, z2, blocked2));

    lemma_cell_quads_counts(c, x1, y1, z1);
    lemma_cell_quads_counts(c, x2, y2, z2);
    assert(cell_quads(c, x1, y1, z1).len() == 5);
    assert(cell_quads(c, x2, y2, z2).len() == 5);

    assert forall|xx: int, yy: int, zz: int|
        in_chunk(xx, yy, zz) && pt(xx, yy, zz) != p1 && pt(xx, yy, zz) != p2
        implies #[trigger] cell_quads(c, xx, yy, zz) == Seq::<Quad>::empty() by {
        assert((xx, yy, zz) != (x1, y1, z1));
        assert((xx, yy, zz) != (x2, y2, z2));
        lemma_cell_quads_upto_air(c, xx, yy, zz, 6);
    }
    lemma_mesh_quads_two(c, p1, p2);
}

/// Idempotence of meshing: any two meshes of the same unmodified chunk are
/// identical, buffer for buffer and vertex for vertex.
pub proof fn lemma_mesh_deterministic(c: Chunk, m1: ChunkMesh, m2: ChunkMesh)
    requires
        mesh_is(m1, mesh_quads(c)),
        mesh_is(m2, mesh_quads(c)),
    ensures
        m1.positions@ == m2.positions@,
        m1.normals@ == m2.normals@,
        m1.uvs@ == m2.uvs@,
        m1.colors@ == m2.colors@,
        m1.indices@ == m2.indices@,
{
    let qs = mesh_quads(c);
    assert forall|i: int| 0 <= i < 4 * qs.len() implies m1.positions@[i] == m2.positions@[i]
        && m1.normals@[i] == m2.normals@[i]
        && m1.uvs@[i] == m2.uvs@[i]
        && m1.colors@[i] == m2.colors@[i] by {
        let k = i / 4;
        let r = i % 4;
        assert(i == 4 * k + r && 0 <= r < 4);
        assert(0 <= k < qs.len());
        assert(quad_matches(m1, qs, k));
        assert(quad_matches(m2, qs, k));
        assert(m1.positions@[i]@ == m2.positions@[i]@);
        assert(m1.normals@[i]@ == m2.normals@[i]@);
    }
    assert forall|i: int| 0 <= i < 6 * qs.len() implies m1.indices@[i] == m2.indices@[i] by {
        let k = i / 6;
        let r = i % 6;
        assert(i == 6 * k + r && 0 <= r < 6);
        assert(0 <= k < qs.len());
        assert(quad_matches(m1, qs, k));
        assert(quad_matches(m2, qs, k));
    }
    assert(m1.positions@ =~= m2.positions@);
    assert(m1.normals@ =~= m2.normals@);
    assert(m1.uvs@ =~= m2.uvs@);
    assert(m1.colors@ =~= m2.colors@);
    assert(m1.indices@ =~= m2.indices@);
}

proof fn lemma_cell_quads_upto_contains(c: Chunk, x: int, y: int, z: int, f: int, n: int)
    requires
        0 <= f < n <= 6,
        c.solid_at(x, y, z),
        face_visible(c, x, y, z, f),
    ensures
        cell_quads_upto(c, x, y, z, n).contains(quad_for(c, x, y, z, f)),
    decreases n,
{
    let prev = cell_quads_upto(c, x, y, z, n - 1);
    let cur = cell_quads_upto(c, x, y, z, n);
    if f == n - 1 {
        assert(cur[prev.len() as int] == quad_for(c, x, y, z, f));
    } else {
        lemma_cell_quads_upto_contains(c, x, y, z, f, n - 1);
        let i = choose|i: int| 0 <= i < prev.len() && prev[i] == quad_for(c, x, y, z, f);
        assert(cur[i] == quad_for(c, x, y, z, f));
    }
}

proof fn lemma_concat_contains_left(a: Seq<Quad>, b: Seq<Quad>, e: Quad)
    requires
        a.contains(e),
    ensures
        (a + b).contains(e),
{
    let i = choose|i: int| 0 <= i < a.len() && a[i] == e;
    assert((a + b)[i] == e);
}

proof fn lemma_concat_contains_right(a: Seq<Quad>, b: Seq<Quad>, e: Quad)
    requires
        b.contains(e),
    ensures
        (a + b).contains(e),
{
    let i = choose|i: int| 0 <= i < b.len() && b[i] == e;
    assert((a + b)[a.len() + i] == e);
}

proof fn lemma_row_quads_contains(c: Chunk, z: int, y: int, x: int, xx: int, e: Quad)
    requires
        0 <= xx < x,
        cell_quads(c, xx, y, z).contains(e),
    ensures
        row_quads(c, z, y, x).contains(e),
    decreases x,
{
    if xx == x - 1 {
        lemma_concat_contains_right(row_quads(c, z, y, x - 1), cell_quads(c, x - 1, y, z), e);
    } else {
        lemma_row_quads_contains(c, z, y, x - 1, xx, e);
        lemma_concat_contains_left(row_quads(c, z, y, x - 1), cell_quads(c, x - 1, y, z), e);
    }
}

proof fn lemma_layer_quads_contains(c: Chunk, z: int, y: int, yy: int, e: Quad)
    requires
        0 <= yy < y,
        row_quads(c, z, yy, CHUNK_SIZE as int).contains(e),
    ensures
        layer_quads(c, z, y).contains(e),
    decreases y,
{
    if yy == y - 1 {
        lemma_concat_contains_right(layer_quads(c, z, y - 1),
            row_quads(c, z, y - 1, CHUNK_SIZE as int), e);
    } else {
        lemma_layer_quads_contains(c, z, y - 1, yy, e);
        lemma_concat_contains_left(layer_quads(c, z, y - 1),
            row_quads(c, z, y - 1, CHUNK_SIZE as int), e);
    }
}

proof fn lemma_chunk_quads_contains(c: Chunk, z: int, zz: int, e: Quad)
    requires
        0 <= zz < z,
        layer_quads(c, zz, CHUNK_SIZE as int).contains(e),
    ensures
        chunk_quads_upto(c, z).contains(e),
    decreases z,
{
    if zz == z - 1 {
        lemma_concat_contains_right(chunk_quads_upto(c, z - 1),
            layer_quads(c, z - 1, CHUNK_SIZE as int), e);
    } else {
        lemma_chunk_quads_contains(c, z - 1, zz, e);
        lemma_concat_contains_left(chunk_quads_upto(c, z - 1),
            layer_quads(c, z - 1, CHUNK_SIZE as int), e);
    }
}

/// Every visible face of every solid cell is in the mesh.
pub proof fn lemma_visible_face_in_mesh(c: Chunk, x: int, y: int, z: int, f: int)
    requires
        in_chunk(x, y, z),
        0 <= f < 6,
        c.solid_at(x, y, z),
        face_visible(c, x, y, z, f),
    ensures
        mesh_quads(c).contains(quad_for(c, x, y, z, f)),
{
    lemma_cell_quads_upto_contains(c, x, y, z, f, 6);
    lemma_row_quads_contains(c, z, y, CHUNK_SIZE as int, x, quad_for(c, x, y, z, f));
    lemma_layer_quads_contains(c, z, CHUNK_SIZE as int, y, quad_for(c, x, y, z, f));
    lemma_chunk_quads_contains(c, CHUNK_SIZE as int, z, quad_for(c, x, y, z, f));
}

/// Boundary rule: a solid block at a chunk edge always emits its outward
/// face on that side — the neighbor lies outside the chunk, and nothing
/// beyond the chunk's own data can suppress the face.
pub proof fn lemma_boundary_face_emitted(c: Chunk, x: int, y: int, z: int, f: int)
    requires
        in_chunk(x, y, z),
        0 <= f < 6,
        c.solid_at(x, y, z),
        !in_chunk(x + face_dx(f), y + face_dy(f), z + face_dz(f)),
    ensures
        mesh_quads(c).contains(quad_for(c, x, y, z, f)),
{
    lemma_visible_face_in_mesh(c, x, y, z, f);
}

} // verus!
