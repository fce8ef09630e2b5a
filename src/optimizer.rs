//! The calls into meshopt that mesh preparation makes, with what they are
//! relied on to return.
use crate::mesh::Vertex;
use vstd::prelude::*;

verus! {

/// The triangles of an index list, three indices each, in order.
pub open spec fn triangles_of(indices: Seq<u32>) -> Seq<(u32, u32, u32)> {
    Seq::new(
        indices.len() / 3,
        |t: int| (indices[3 * t], indices[3 * t + 1], indices[3 * t + 2]),
    )
}

/// Number of distinct values in `s`.
pub open spec fn distinct_count<T>(s: Seq<T>) -> nat {
    s.to_set().len()
}

/// `s[i]` does not occur earlier in `s`.
pub open spec fn first_occurrence<T>(s: Seq<T>, i: int) -> bool {
    forall|j: int| 0 <= j < i ==> s[j] != s[i]
}

/// Some entry of `remap` is `k`.
pub open spec fn takes_value(remap: Seq<u32>, k: nat) -> bool {
    exists|i: int| 0 <= i < remap.len() && remap[i] as nat == k
}

/// A remap table numbers the values of `s` from zero, in order of first
/// occurrence, equal values alike: `count` values in all.
pub open spec fn is_first_use_numbering<T>(s: Seq<T>, remap: Seq<u32>, count: nat) -> bool {
    &&& remap.len() == s.len()
    &&& count == distinct_count(s)
    &&& forall|i: int| 0 <= i < s.len() ==> (#[trigger] remap[i] as nat) < count
    &&& forall|i: int, j: int|
        0 <= i < s.len() && 0 <= j < s.len() ==> (s[i] == s[j] <==> #[trigger] remap[i]
            == #[trigger] remap[j])
    &&& forall|k: nat| k < count ==> #[trigger] takes_value(remap, k)
    &&& forall|i: int|
        0 <= i < s.len() && #[trigger] first_occurrence(s, i) ==> remap[i] as nat
            == distinct_count(s.subrange(0, i))
}

/// What meshopt's vertex cache optimiser makes of an index list for a
/// vertex count.
pub uninterp spec fn vertex_cache_order(indices: Seq<u32>, vertex_count: nat) -> Seq<u32>;

/// The eight words of a vertex, in field order.
pub open spec fn vertex_words_spec(v: Vertex) -> Seq<u32> {
    v.position@ + v.tex_coord@ + v.normal@
}

fn vertex_words(v: &Vertex) -> (r: [u32; 8])
    ensures
        r@ == vertex_words_spec(*v),
{
    let r = [v.position[0], v.position[1], v.position[2], v.tex_coord[0], v.tex_coord[1], v.normal[0], v.normal[1], v.normal[2]];
    proof {
        assert(r@ =~= vertex_words_spec(*v));
    }
    r
}

fn vertex_of_words(w: &[u32; 8]) -> (r: Vertex)
    ensures
        vertex_words_spec(r) == w@,
{
    let r = Vertex::new([w[0], w[1], w[2]], [w[3], w[4]], [w[5], w[6], w[7]]);
    proof {
        assert(vertex_words_spec(r) =~= w@);
    }
    r
}

/// Relies on `meshopt::generate_vertex_remap` without an index list: it
/// compares vertices byte for byte (here, their eight words) and numbers the
/// distinct ones in order of first occurrence, returning the count and, for
/// each vertex, its number.
#[verifier::external_body]
pub(crate) fn generate_vertex_remap(vertices: &Vec<Vertex>) -> (r: (usize, Vec<u32>))
    requires
        vertices@.len() < u32::MAX,
    ensures
        is_first_use_numbering(vertices@, r.1@, r.0 as nat),
{
    let words: Vec<[u32; 8]> = vertices.iter().map(vertex_words).collect();
    meshopt::generate_vertex_remap(&words, None)
}

/// Relies on `meshopt::remap_index_buffer` without an index list: entry `i`
/// of the result is `remap[i]`. The call asserts whole triangles and no
/// unset entry.
#[verifier::external_body]
pub(crate) fn remap_index_buffer(remap: &Vec<u32>) -> (r: Vec<u32>)
    requires
        remap@.len() < u32::MAX,
        remap@.len() % 3 == 0,
        forall|i: int| 0 <= i < remap@.len() ==> #[trigger] remap@[i] != u32::MAX,
    ensures
        r@ == remap@,
{
    meshopt::remap_index_buffer(None, remap.len(), remap)
}

/// Relies on `meshopt::remap_vertex_buffer`: a buffer of `count` vertices
/// in which vertex `i` of the input lands at position `remap[i]`.
#[verifier::external_body]
pub(crate) fn remap_vertex_buffer(vertices: &Vec<Vertex>, count: usize, remap: &Vec<u32>) -> (r: Vec<Vertex>)
    requires
        remap@.len() == vertices@.len(),
        vertices@.len() < u32::MAX,
        count <= vertices@.len(),
        forall|i: int| 0 <= i < remap@.len() ==> (#[trigger] remap@[i] as nat) < count,
        forall|i: int, j: int|
            0 <= i < remap@.len() && 0 <= j < remap@.len() && #[trigger] remap@[i] == #[trigger] remap@[j]
                ==> vertices@[i] == vertices@[j],
    ensures
        r@.len() == count,
        forall|i: int| 0 <= i < remap@.len() ==> r@[#[trigger] remap@[i] as int] == vertices@[i],
{
    let words: Vec<[u32; 8]> = vertices.iter().map(vertex_words).collect();
    let out = meshopt::remap_vertex_buffer(&words, count, remap);
    out.iter().map(vertex_of_words).collect()
}

/// Relies on `meshopt::optimize_vertex_cache_in_place`: it reorders whole
/// triangles, each written out once with its three indices in their order.
/// Its offsets are 32-bit, hence the bound on the index count.
#[verifier::external_body]
pub(crate) fn optimize_vertex_cache(indices: &mut Vec<u32>, vertex_count: usize)
    requires
        old(indices)@.len() < u32::MAX,
        old(indices)@.len() % 3 == 0,
        forall|i: int| 0 <= i < old(indices)@.len() ==> (#[trigger] old(indices)@[i] as nat) < vertex_count,
    ensures
        final(indices)@ == vertex_cache_order(old(indices)@, vertex_count as nat),
        final(indices)@.len() == old(indices)@.len(),
        forall|i: int| 0 <= i < final(indices)@.len() ==> (#[trigger] final(indices)@[i] as nat) < vertex_count,
        triangles_of(final(indices)@).to_multiset() == triangles_of(old(indices)@).to_multiset(),
{
    meshopt::optimize_vertex_cache_in_place(indices, vertex_count)
}

/// Relies on `meshopt::optimize_vertex_fetch`: vertices are numbered anew in
/// the order the index list first uses them, the indices are rewritten to
/// the new numbers, and only the used vertices are returned, in that order.
/// Its counters are 32-bit, hence the bounds on both lengths.
#[verifier::external_body]
pub(crate) fn optimize_vertex_fetch(indices: &mut Vec<u32>, vertices: &Vec<Vertex>) -> (r: Vec<Vertex>)
    requires
        old(indices)@.len() < u32::MAX,
        vertices@.len() < u32::MAX,
        old(indices)@.len() % 3 == 0,
        forall|i: int| 0 <= i < old(indices)@.len() ==> (#[trigger] old(indices)@[i] as nat) < vertices@.len(),
    ensures
        is_first_use_numbering(old(indices)@, final(indices)@, r@.len()),
        forall|i: int|
            0 <= i < old(indices)@.len() ==> r@[#[trigger] final(indices)@[i] as int]
                == vertices@[old(indices)@[i] as int],
{
    let words: Vec<[u32; 8]> = vertices.iter().map(vertex_words).collect();
    let out = meshopt::optimize_vertex_fetch(indices, &words);
    out.iter().map(vertex_of_words).collect()
}

} // verus!
