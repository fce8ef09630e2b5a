//! From face-corner input to an indexed, deduplicated, cache-ordered mesh.
use crate::mesh::{MeshError, Vertex};
use crate::optimizer::{
    generate_vertex_remap, is_first_use_numbering, optimize_vertex_cache, optimize_vertex_fetch,
    remap_index_buffer, remap_vertex_buffer, triangles_of, vertex_cache_order,
};
use vstd::prelude::*;

verus! {

/// One face corner of the input: which position, texture coordinate and
/// normal it takes, each an index into its attribute array counted in
/// whole attributes (three words per position and normal, two per texture
/// coordinate).
#[derive(Clone, Copy, Debug, PartialEq, Eq)]
pub struct CornerIndex {
    pub position: u32,
    pub tex_coord: u32,
    pub normal: u32,
}

/// The corner names attributes that exist in arrays of the given lengths.
pub open spec fn corner_in_range(c: CornerIndex, np: nat, nt: nat, nn: nat) -> bool {
    &&& 3 * c.position + 2 < np
    &&& 2 * c.tex_coord + 1 < nt
    &&& 3 * c.normal + 2 < nn
}

/// `v` is the vertex that corner `c` gathers from the attribute arrays.
pub open spec fn gathered(v: Vertex, p: Seq<u32>, t: Seq<u32>, n: Seq<u32>, c: CornerIndex) -> bool {
    &&& v.position@ == p.subrange(3 * c.position, 3 * c.position + 3)
    &&& v.tex_coord@ == t.subrange(2 * c.tex_coord, 2 * c.tex_coord + 2)
    &&& v.normal@ == n.subrange(3 * c.normal, 3 * c.normal + 3)
}

/// The vertices that an index list draws, corner by corner.
pub open spec fn expand(vertices: Seq<Vertex>, indices: Seq<u32>) -> Seq<Vertex> {
    Seq::new(indices.len(), |i: int| vertices[indices[i] as int])
}

/// Every index names one of `count` vertices.
pub open spec fn indices_below(indices: Seq<u32>, count: nat) -> bool {
    forall|i: int| 0 <= i < indices.len() ==> (#[trigger] indices[i] as nat) < count
}

/// No vertex occurs twice.
pub open spec fn all_distinct(vertices: Seq<Vertex>) -> bool {
    forall|a: int, b: int|
        0 <= a < vertices.len() && 0 <= b < vertices.len() && a != b ==> #[trigger] vertices[a]
            != #[trigger] vertices[b]
}

/// Gathers one vertex per corner. Fails on the first corner that names an
/// attribute outside its array.
pub fn expand_corners(
    positions: &Vec<u32>,
    tex_coords: &Vec<u32>,
    normals: &Vec<u32>,
    corners: &Vec<CornerIndex>,
) -> (r: Result<Vec<Vertex>, MeshError>)
    ensures
        (r is Ok) <==> forall|i: int|
            0 <= i < corners@.len() ==> corner_in_range(
                #[trigger] corners@[i],
                positions@.len(),
                tex_coords@.len(),
                normals@.len(),
            ),
        r is Ok ==> {
            &&& r->Ok_0@.len() == corners@.len()
            &&& forall|i: int|
                0 <= i < corners@.len() ==> gathered(
                    #[trigger] r->Ok_0@[i],
                    positions@,
                    tex_coords@,
                    normals@,
                    corners@[i],
                )
        },
        r is Err ==> exists|i: int|
            0 <= i < corners@.len() && r == Err::<Vec<Vertex>, MeshError>(MeshError::IndexOutOfRange(i as usize))
                && !corner_in_range(corners@[i], positions@.len(), tex_coords@.len(), normals@.len())
                && forall|j: int|
                0 <= j < i ==> corner_in_range(
                    #[trigger] corners@[j],
                    positions@.len(),
                    tex_coords@.len(),
                    normals@.len(),
                ),
{
    let mut out: Vec<Vertex> = Vec::with_capacity(corners.len());
    let mut i: usize = 0;
    while i < corners.len()
        invariant
            i <= corners@.len(),
            out@.len() == i,
            forall|j: int|
                0 <= j < i ==> corner_in_range(
                    #[trigger] corners@[j],
                    positions@.len(),
                    tex_coords@.len(),
                    normals@.len(),
                ),
            forall|j: int|
                0 <= j < i ==> gathered(#[trigger] out@[j], positions@, tex_coords@, normals@, corners@[j]),
        decreases corners@.len() - i,
    {
        let c = corners[i];
        let p64: u64 = 3 * (c.position as u64);
        let t64: u64 = 2 * (c.tex_coord as u64);
        let n64: u64 = 3 * (c.normal as u64);
        if p64 + 2 >= positions.len() as u64 || t64 + 1 >= tex_coords.len() as u64 || n64 + 2
            >= normals.len() as u64 {
            return Err(MeshError::IndexOutOfRange(i));
        }
        let p = p64 as usize;
        let t = t64 as usize;
        let n = n64 as usize;
        let v = Vertex::new(
            [positions[p], positions[p + 1], positions[p + 2]],
            [tex_coords[t], tex_coords[t + 1]],
            [normals[n], normals[n + 1], normals[n + 2]],
        );
        assert(v.position@ =~= positions@.subrange(p as int, p + 3));
        assert(v.tex_coord@ =~= tex_coords@.subrange(t as int, t + 2));
        assert(v.normal@ =~= normals@.subrange(n as int, n + 3));
        out.push(v);
        i += 1;
    }
    Ok(out)
}

/// Merges bit-identical vertices of a triangle list (three corners per
/// triangle). Returns the distinct vertices in order of
/// first occurrence and, for each input vertex, the index of its copy.
pub fn deduplicate(corners: &Vec<Vertex>) -> (r: (Vec<Vertex>, Vec<u32>))
    requires
        corners@.len() < u32::MAX,
        corners@.len() % 3 == 0,
    ensures
        expand(r.0@, r.1@) == corners@,
        r.0@.len() <= corners@.len(),
        indices_below(r.1@, r.0@.len()),
        all_distinct(r.0@),
        is_first_use_numbering(corners@, r.1@, r.0@.len()),
{
    let (count, remap) = generate_vertex_remap(corners);
    proof {
        corners@.lemma_cardinality_of_set();
    }
    let vertices = remap_vertex_buffer(corners, count, &remap);
    let indices = remap_index_buffer(&remap);
    proof {
        assert(expand(vertices@, indices@) =~= corners@);
        assert forall|a: int, b: int|
            0 <= a < vertices@.len() && 0 <= b < vertices@.len() && a != b implies #[trigger] vertices@[a]
                != #[trigger] vertices@[b] by {
            assert(crate::optimizer::takes_value(remap@, a as nat));
            assert(crate::optimizer::takes_value(remap@, b as nat));
            let ia = choose|i: int| 0 <= i < remap@.len() && remap@[i] as nat == a as nat;
            let ib = choose|i: int| 0 <= i < remap@.len() && remap@[i] as nat == b as nat;
            assert(vertices@[remap@[ia] as int] == corners@[ia]);
            assert(vertices@[remap@[ib] as int] == corners@[ib]);
        }
    }
    (vertices, indices)
}

/// Corner `i` is the first corner that names an attribute outside its array.
pub open spec fn first_bad_corner(
    p: Seq<u32>,
    t: Seq<u32>,
    n: Seq<u32>,
    corners: Seq<CornerIndex>,
    i: int,
) -> bool {
    &&& 0 <= i < corners.len()
    &&& !corner_in_range(corners[i], p.len(), t.len(), n.len())
    &&& forall|j: int| 0 <= j < i ==> corner_in_range(#[trigger] corners[j], p.len(), t.len(), n.len())
}

/// Index `i` is the first index that names no vertex.
pub open spec fn first_bad_index(indices: Seq<u32>, count: nat, i: int) -> bool {
    &&& 0 <= i < indices.len()
    &&& indices[i] as nat >= count
    &&& forall|j: int| 0 <= j < i ==> (#[trigger] indices[j] as nat) < count
}

/// `(vertices, indices)` is the preparation of the corners: `expanded` is
/// what the corners gather, `dedup` its first-occurrence numbering over the
/// distinct `vertices`, and `indices` the cache order of `dedup`, which holds
/// the same triangles.
pub open spec fn prepared_from(
    p: Seq<u32>,
    t: Seq<u32>,
    n: Seq<u32>,
    corners: Seq<CornerIndex>,
    expanded: Seq<Vertex>,
    dedup: Seq<u32>,
    vertices: Seq<Vertex>,
    indices: Seq<u32>,
) -> bool {
    &&& expanded.len() == corners.len()
    &&& forall|i: int| 0 <= i < corners.len() ==> gathered(#[trigger] expanded[i], p, t, n, corners[i])
    &&& expand(vertices, dedup) == expanded
    &&& is_first_use_numbering(expanded, dedup, vertices.len())
    &&& all_distinct(vertices)
    &&& indices == vertex_cache_order(dedup, vertices.len())
    &&& triangles_of(indices).to_multiset() == triangles_of(dedup).to_multiset()
    &&& indices_below(indices, vertices.len())
}

/// [`prepared_from`] with the gathered corners and their numbering as a pair.
pub open spec fn prepared_with(
    p: Seq<u32>,
    t: Seq<u32>,
    n: Seq<u32>,
    corners: Seq<CornerIndex>,
    w: (Seq<Vertex>, Seq<u32>),
    vertices: Seq<Vertex>,
    indices: Seq<u32>,
) -> bool {
    prepared_from(p, t, n, corners, w.0, w.1, vertices, indices)
}

/// `(vertices, indices)` is a preparation of the corners (see
/// [`prepared_from`]).
pub open spec fn prepared(
    p: Seq<u32>,
    t: Seq<u32>,
    n: Seq<u32>,
    corners: Seq<CornerIndex>,
    vertices: Seq<Vertex>,
    indices: Seq<u32>,
) -> bool {
    exists|w: (Seq<Vertex>, Seq<u32>)| #[trigger] prepared_with(p, t, n, corners, w, vertices, indices)
}

/// Builds the indexed mesh of a face-corner input: gathers one vertex per
/// corner, merges bit-identical vertices (first occurrence wins) and orders
/// the triangles for the vertex cache.
///
/// On success the result draws the same triangles as the corners, each
/// once and with its corners in order, and has no vertex twice.
pub fn prepare_mesh(
    positions: &Vec<u32>,
    tex_coords: &Vec<u32>,
    normals: &Vec<u32>,
    corners: &Vec<CornerIndex>,
) -> (r: Result<(Vec<Vertex>, Vec<u32>), MeshError>)
    ensures
        corners@.len() % 3 != 0 ==> r == Err::<(Vec<Vertex>, Vec<u32>), MeshError>(MeshError::NotTriangles),
        corners@.len() % 3 == 0 && corners@.len() >= u32::MAX ==> r == Err::<(Vec<Vertex>, Vec<u32>), MeshError>(
            MeshError::TooManyCorners,
        ),
        corners@.len() % 3 == 0 && corners@.len() < u32::MAX ==> ((r is Ok) <==> forall|i: int|
            0 <= i < corners@.len() ==> corner_in_range(
                #[trigger] corners@[i],
                positions@.len(),
                tex_coords@.len(),
                normals@.len(),
            )),
        corners@.len() % 3 == 0 && corners@.len() < u32::MAX && r is Err ==> r->Err_0 is IndexOutOfRange,
        r matches Err(MeshError::IndexOutOfRange(i)) ==> first_bad_corner(
            positions@,
            tex_coords@,
            normals@,
            corners@,
            i as int,
        ),
        r is Ok ==> prepared(positions@, tex_coords@, normals@, corners@, r->Ok_0.0@, r->Ok_0.1@),
        r is Ok ==> r->Ok_0.1@.len() == corners@.len() && r->Ok_0.0@.len() <= corners@.len(),
{
    if corners.len() % 3 != 0 {
        return Err(MeshError::NotTriangles);
    }
    if corners.len() >= 0xffff_ffff {
        return Err(MeshError::TooManyCorners);
    }
    let expanded = match expand_corners(positions, tex_coords, normals, corners) {
        Ok(v) => v,
        Err(e) => {
            return Err(e);
        },
    };
    let (vertices, mut indices) = deduplicate(&expanded);
    let ghost dedup = indices@;
    optimize_vertex_cache(&mut indices, vertices.len());
    let res: Result<(Vec<Vertex>, Vec<u32>), MeshError> = Ok((vertices, indices));
    assert(prepared_with(
        positions@,
        tex_coords@,
        normals@,
        corners@,
        (expanded@, dedup),
        res->Ok_0.0@,
        res->Ok_0.1@,
    ));
    assert(prepared(positions@, tex_coords@, normals@, corners@, res->Ok_0.0@, res->Ok_0.1@));
    res
}

/// Renumbers vertices in the order the index list first uses them and drops
/// the unused ones, rewriting the indices to match. Fails, leaving the
/// indices as they were, when the list is not whole triangles, when either
/// list is too long for 32-bit counts, or when it names a vertex that does
/// not exist.
///
/// On success the result draws exactly the vertices it drew before, corner
/// by corner.
pub fn reorder_for_fetch(indices: &mut Vec<u32>, vertices: &Vec<Vertex>) -> (r: Result<
    Vec<Vertex>,
    MeshError,
>)
    ensures
        old(indices)@.len() % 3 != 0 ==> r == Err::<Vec<Vertex>, MeshError>(MeshError::NotTriangles),
        old(indices)@.len() % 3 == 0 && old(indices)@.len() >= u32::MAX ==> r == Err::<Vec<Vertex>, MeshError>(
            MeshError::TooManyCorners,
        ),
        old(indices)@.len() % 3 == 0 && old(indices)@.len() < u32::MAX && vertices@.len() >= u32::MAX ==> r
            == Err::<Vec<Vertex>, MeshError>(MeshError::TooManyVertices),
        old(indices)@.len() % 3 == 0 && old(indices)@.len() < u32::MAX && vertices@.len() < u32::MAX ==> ((
        r is Ok) <==> indices_below(old(indices)@, vertices@.len())),
        r matches Err(MeshError::IndexOutOfRange(i)) ==> first_bad_index(
            old(indices)@,
            vertices@.len(),
            i as int,
        ),
        r is Err ==> final(indices)@ == old(indices)@,
        r is Ok ==> {
            &&& expand(r->Ok_0@, final(indices)@) == expand(vertices@, old(indices)@)
            &&& is_first_use_numbering(old(indices)@, final(indices)@, r->Ok_0@.len())
            &&& indices_below(final(indices)@, r->Ok_0@.len())
        },
{
    if indices.len() % 3 != 0 {
        return Err(MeshError::NotTriangles);
    }
    if indices.len() >= 0xffff_ffff {
        return Err(MeshError::TooManyCorners);
    }
    if vertices.len() >= 0xffff_ffff {
        return Err(MeshError::TooManyVertices);
    }
    let mut i: usize = 0;
    while i < indices.len()
        invariant
            i <= indices@.len(),
            indices@ == old(indices)@,
            indices@.len() % 3 == 0,
            indices@.len() < u32::MAX,
            vertices@.len() < u32::MAX,
            forall|j: int| 0 <= j < i ==> (#[trigger] indices@[j] as nat) < vertices@.len(),
        decreases indices@.len() - i,
    {
        if indices[i] as usize >= vertices.len() {
            return Err(MeshError::IndexOutOfRange(i));
        }
        i += 1;
    }
    let ghost before = indices@;
    let out = optimize_vertex_fetch(indices, vertices);
    proof {
        assert(expand(out@, indices@) =~= expand(vertices@, before));
    }
    Ok(out)
}

} // verus!
