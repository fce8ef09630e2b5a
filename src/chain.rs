//! The level-of-detail chain: level 0 from the prepared mesh as it is, each
//! further level from a simplification of it aimed at half the indices of
//! the level before.
use crate::loader::{
    corner_in_range, expand, first_bad_corner, gathered, prepared_with, indices_below, prepare_mesh, prepared, reorder_for_fetch, CornerIndex,
};
use crate::lod::lod_target_index_count;
use crate::mesh::{Mesh, MeshError, MeshLevel, Vertex};
use crate::meshlet::{all_clusters_valid, level_data, pack_level, packed_from, Cluster};
use crate::optimizer::{is_first_use_numbering, takes_value, triangles_of};
use crate::triangles::{lemma_map_keeps_multiset, same_triangles, triangle_list, Tri};
use vstd::arithmetic::power2::pow2;
use vstd::prelude::*;

verus! {

/// Every vertex of `level` is a vertex of `base`.
pub open spec fn drawn_from(level: Seq<Vertex>, base: Seq<Vertex>) -> bool {
    forall|k: int| 0 <= k < level.len() ==> base.contains(#[trigger] level[k])
}

/// Number of triangles the clusters hold.
pub open spec fn total_triangles(cs: Seq<Cluster>) -> nat
    decreases cs.len(),
{
    if cs.len() == 0 {
        0
    } else {
        total_triangles(cs.drop_last()) + cs.last().triangles@.len() / 3
    }
}

/// The triangles of a cluster, each corner read through the cluster's
/// vertex list as a level-vertex index.
pub open spec fn cluster_triangles(c: Cluster) -> Seq<Tri> {
    Seq::new(
        c.triangles@.len() / 3,
        |k: int|
            (
                c.vertices@[c.triangles@[3 * k] as int],
                c.vertices@[c.triangles@[3 * k + 1] as int],
                c.vertices@[c.triangles@[3 * k + 2] as int],
            ),
    )
}

/// The triangles of a sequence of clusters, one cluster after another.
pub open spec fn clusters_triangles(cs: Seq<Cluster>) -> Seq<Tri>
    decreases cs.len(),
{
    if cs.len() == 0 {
        Seq::empty()
    } else {
        clusters_triangles(cs.drop_last()) + cluster_triangles(cs.last())
    }
}

/// Some cluster lists level vertex `k`.
pub open spec fn covers_vertex(cs: Seq<Cluster>, k: nat) -> bool {
    exists|c: int, j: int|
        0 <= c < cs.len() && 0 <= j < cs[c].vertices@.len() && cs[c].vertices@[j] as nat == k
}

/// Every one of the `n` level vertices is listed by some cluster.
pub open spec fn covers_vertices(cs: Seq<Cluster>, n: nat) -> bool {
    forall|k: nat| k < n ==> #[trigger] covers_vertex(cs, k)
}

/// Every one of `n` vertices is used by the index list.
pub open spec fn uses_all(indices: Seq<u32>, n: nat) -> bool {
    forall|k: nat| k < n ==> #[trigger] takes_value(indices, k)
}

/// Whatever the simplifier hands back is whole triangles over the vertices
/// it was given.
pub open spec fn simplifier_sound<S: Fn(&Vec<u32>, &Vec<Vertex>, usize) -> Vec<u32>>(simplify: S) -> bool {
    forall|i: &Vec<u32>, v: &Vec<Vertex>, t: usize, out: Vec<u32>|
        #[trigger] simplify.ensures((i, v, t), out) ==> out@.len() % 3 == 0 && indices_below(
            out@,
            v@.len(),
        ) && out@.len() <= i@.len()
}

/// Whatever the clusteriser hands back is valid clusters over the vertices
/// it was given, whose data fits 32-bit offsets, holding as many triangles
/// as the index list and listing every vertex that the index list uses.
pub open spec fn clusteriser_sound<C: Fn(&Vec<u32>, &Vec<Vertex>) -> Vec<Cluster>>(cluster: C) -> bool {
    forall|i: &Vec<u32>, v: &Vec<Vertex>, out: Vec<Cluster>|
        #[trigger] cluster.ensures((i, v), out) ==> {
            &&& all_clusters_valid(out@, v@.len())
            &&& level_data(out@).len() <= u32::MAX
            &&& total_triangles(out@) == i@.len() / 3
            &&& clusters_triangles(out@).to_multiset() == triangles_of(i@).to_multiset()
            &&& forall|k: nat| k < v@.len() && takes_value(i@, k) ==> #[trigger] covers_vertex(out@, k)
        }
}

/// The index count that level `l > 0` asks the simplifier for.
pub open spec fn level_target(index_count: nat, l: u32) -> usize {
    (index_count / pow2(l as nat)) as usize
}

/// `level` is level `l` of the chain over `(vertices, indices)`, built from
/// `w = (s, iv, vv, cs)`: `cs` is what the clusteriser handed back for the
/// level's indices `iv` over its vertices `vv`, and the level is exactly the
/// packing of `cs`. Level 0 clusters the given mesh as it is; a coarser
/// level clusters `s`, what the simplifier handed back for the level's
/// target, renumbered by first use over the vertices it uses.
pub open spec fn level_built_with<S, C>(
    simplify: S,
    cluster: C,
    vertices: &Vec<Vertex>,
    indices: &Vec<u32>,
    l: u32,
    level: MeshLevel,
    w: (Vec<u32>, Vec<u32>, Vec<Vertex>, Vec<Cluster>),
) -> bool where
    S: Fn(&Vec<u32>, &Vec<Vertex>, usize) -> Vec<u32>,
    C: Fn(&Vec<u32>, &Vec<Vertex>) -> Vec<Cluster>,
 {
    let (s, iv, vv, cs) = w;
    &&& cluster.ensures((&iv, &vv), cs)
    &&& level.vertices@ == vv@
    &&& packed_from(level, cs@)
    &&& total_triangles(cs@) == iv@.len() / 3
    &&& clusters_triangles(cs@).to_multiset() == triangles_of(iv@).to_multiset()
    &&& covers_vertices(cs@, vv@.len())
    &&& l == 0 ==> iv@ == indices@ && vv@ == vertices@
    &&& l > 0 ==> {
        &&& simplify.ensures((indices, vertices, level_target(indices@.len(), l)), s)
        &&& s@.len() % 3 == 0
        &&& s@.len() <= indices@.len()
        &&& indices_below(s@, vertices@.len())
        &&& expand(vv@, iv@) == expand(vertices@, s@)
        &&& is_first_use_numbering(s@, iv@, vv@.len())
    }
}

/// Triangle counts along the chain: the clusters of level 0 hold exactly the
/// given mesh's triangles, and those of a coarser level no more.
pub proof fn lemma_level_triangles<S, C>(
    simplify: S,
    cluster: C,
    vertices: &Vec<Vertex>,
    indices: &Vec<u32>,
    l: u32,
    level: MeshLevel,
    w: (Vec<u32>, Vec<u32>, Vec<Vertex>, Vec<Cluster>),
) where
    S: Fn(&Vec<u32>, &Vec<Vertex>, usize) -> Vec<u32>,
    C: Fn(&Vec<u32>, &Vec<Vertex>) -> Vec<Cluster>,

    requires
        level_built_with(simplify, cluster, vertices, indices, l, level, w),
    ensures
        l == 0 ==> total_triangles(w.3@) == indices@.len() / 3,
        total_triangles(w.3@) <= indices@.len() / 3,
{
    if l > 0 {
        assert(w.1@.len() == w.0@.len());
        assert(w.1@.len() <= indices@.len());
        vstd::arithmetic::div_mod::lemma_div_is_ordered(w.1@.len() as int, indices@.len() as int, 3);
    }
}

/// [`level_built_with`] for some choice of the intermediate values.
pub open spec fn level_built<S, C>(
    simplify: S,
    cluster: C,
    vertices: &Vec<Vertex>,
    indices: &Vec<u32>,
    l: u32,
    level: MeshLevel,
) -> bool where
    S: Fn(&Vec<u32>, &Vec<Vertex>, usize) -> Vec<u32>,
    C: Fn(&Vec<u32>, &Vec<Vertex>) -> Vec<Cluster>,
 {
    exists|w: (Vec<u32>, Vec<u32>, Vec<Vertex>, Vec<Cluster>)|
        #[trigger] level_built_with(simplify, cluster, vertices, indices, l, level, w)
}

/// `mesh` is a level-of-detail chain of `num_levels` levels over
/// `(vertices, indices)`: well formed, drawing only the given vertices, level
/// 0 with the given vertices as they are, and each level built as
/// [`level_built`] says.
pub open spec fn chain_built<S, C>(
    simplify: S,
    cluster: C,
    vertices: &Vec<Vertex>,
    indices: &Vec<u32>,
    num_levels: u32,
    mesh: Mesh,
) -> bool where
    S: Fn(&Vec<u32>, &Vec<Vertex>, usize) -> Vec<u32>,
    C: Fn(&Vec<u32>, &Vec<Vertex>) -> Vec<Cluster>,
 {
    &&& mesh.wf()
    &&& mesh.levels@.len() == num_levels
    &&& mesh.levels@[0].vertices@ == vertices@
    &&& forall|l: int|
        0 <= l < mesh.levels@.len() ==> drawn_from(#[trigger] mesh.levels@[l].vertices@, vertices@)
    &&& forall|l: int|
        0 <= l < mesh.levels@.len() ==> level_built(
            simplify,
            cluster,
            vertices,
            indices,
            l as u32,
            #[trigger] mesh.levels@[l],
        )
}

proof fn lemma_total_triangles_step(cs: Seq<Cluster>, i: int)
    requires
        0 <= i < cs.len(),
    ensures
        total_triangles(cs.take(i + 1)) == total_triangles(cs.take(i)) + cs[i].triangles@.len() / 3,
{
    assert(cs.take(i + 1).drop_last() =~= cs.take(i));
}

proof fn lemma_total_triangles_prefix(cs: Seq<Cluster>, i: int, j: int)
    requires
        0 <= i <= j <= cs.len(),
    ensures
        total_triangles(cs.take(i)) <= total_triangles(cs.take(j)),
    decreases j - i,
{
    if i < j {
        lemma_total_triangles_prefix(cs, i, j - 1);
        lemma_total_triangles_step(cs, j - 1);
    }
}

/// Whether the clusters hold exactly `count` triangles.
fn triangle_count_matches(clusters: &Vec<Cluster>, count: usize) -> (r: bool)
    ensures
        r == (total_triangles(clusters@) == count),
{
    let mut acc: usize = 0;
    let mut i: usize = 0;
    while i < clusters.len()
        invariant
            i <= clusters@.len(),
            acc == total_triangles(clusters@.take(i as int)),
            acc <= count,
        decreases clusters@.len() - i,
    {
        let t = clusters[i].triangles.len() / 3;
        proof {
            lemma_total_triangles_step(clusters@, i as int);
        }
        if t > count - acc {
            proof {
                lemma_total_triangles_prefix(clusters@, i + 1, clusters@.len() as int);
                assert(clusters@.take(clusters@.len() as int) =~= clusters@);
            }
            return false;
        }
        acc = acc + t;
        i += 1;
    }
    assert(clusters@.take(clusters@.len() as int) =~= clusters@);
    acc == count
}

/// The first of `n` level vertices that no cluster lists, if any.
fn first_unlisted_vertex(clusters: &Vec<Cluster>, n: usize) -> (r: Option<usize>)
    ensures
        r is None <==> covers_vertices(clusters@, n as nat),
        r is Some ==> r->Some_0 < n && !covers_vertex(clusters@, r->Some_0 as nat),
{
    let mut used: Vec<bool> = Vec::new();
    let mut k: usize = 0;
    while k < n
        invariant
            k <= n,
            used@.len() == k,
            forall|x: int| 0 <= x < k ==> !(#[trigger] used@[x]),
        decreases n - k,
    {
        used.push(false);
        k += 1;
    }
    let mut c: usize = 0;
    while c < clusters.len()
        invariant
            c <= clusters@.len(),
            used@.len() == n,
            forall|x: int| 0 <= x < n && #[trigger] used@[x] ==> covers_vertex(clusters@, x as nat),
            forall|cc: int, j: int|
                0 <= cc < c && 0 <= j < clusters@[cc].vertices@.len() && (clusters@[cc].vertices@[j] as int)
                    < n ==> used@[#[trigger] clusters@[cc].vertices@[j] as int],
        decreases clusters@.len() - c,
    {
        let vs = &clusters[c].vertices;
        let mut j: usize = 0;
        while j < vs.len()
            invariant
                c < clusters@.len(),
                vs@ == clusters@[c as int].vertices@,
                j <= vs@.len(),
                used@.len() == n,
                forall|x: int| 0 <= x < n && #[trigger] used@[x] ==> covers_vertex(clusters@, x as nat),
                forall|cc: int, jj: int|
                    0 <= cc < c && 0 <= jj < clusters@[cc].vertices@.len() && (
                    clusters@[cc].vertices@[jj] as int) < n ==> used@[#[trigger] clusters@[cc].vertices@[jj] as int],
                forall|jj: int| 0 <= jj < j && (vs@[jj] as int) < n ==> used@[#[trigger] vs@[jj] as int],
            decreases vs@.len() - j,
        {
            let v = vs[j] as usize;
            if v < n {
                proof {
                    assert(clusters@[c as int].vertices@[j as int] as nat == v as nat);
                    assert(covers_vertex(clusters@, v as nat));
                }
                used.set(v, true);
            }
            j += 1;
        }
        c += 1;
    }
    let mut k: usize = 0;
    while k < n
        invariant
            k <= n,
            used@.len() == n,
            forall|x: int| 0 <= x < n && #[trigger] used@[x] ==> covers_vertex(clusters@, x as nat),
            forall|cc: int, j: int|
                0 <= cc < clusters@.len() && 0 <= j < clusters@[cc].vertices@.len() && (
                clusters@[cc].vertices@[j] as int) < n ==> used@[#[trigger] clusters@[cc].vertices@[j] as int],
            forall|x: nat| x < k ==> #[trigger] covers_vertex(clusters@, x),
        decreases n - k,
    {
        if !used[k] {
            proof {
                if covers_vertex(clusters@, k as nat) {
                    let (cc, j) = choose|cc: int, j: int|
                        0 <= cc < clusters@.len() && 0 <= j < clusters@[cc].vertices@.len()
                            && clusters@[cc].vertices@[j] as nat == k as nat;
                    assert(used@[clusters@[cc].vertices@[j] as int]);
                }
            }
            return Some(k);
        }
        assert(used@[k as int]);
        k += 1;
    }
    None
}

/// The triangles of valid clusters, as level-vertex indices.
fn collect_cluster_triangles(clusters: &Vec<Cluster>, level_vertices: usize) -> (r: Vec<Tri>)
    requires
        all_clusters_valid(clusters@, level_vertices as nat),
    ensures
        r@ == clusters_triangles(clusters@),
{
    let mut out: Vec<Tri> = Vec::new();
    let mut c: usize = 0;
    while c < clusters.len()
        invariant
            c <= clusters@.len(),
            all_clusters_valid(clusters@, level_vertices as nat),
            out@ == clusters_triangles(clusters@.take(c as int)),
        decreases clusters@.len() - c,
    {
        let cl = &clusters[c];
        assert(crate::meshlet::cluster_valid(clusters@[c as int], level_vertices as nat));
        let ghost base = out@;
        let mut k: usize = 0;
        while k < cl.triangles.len()
            invariant
                cl == clusters@[c as int],
                crate::meshlet::cluster_valid(*cl, level_vertices as nat),
                k % 3 == 0,
                k <= cl.triangles@.len(),
                out@ =~= base + cluster_triangles(*cl).take(k as int / 3),
            decreases cl.triangles@.len() - k,
        {
            let a = cl.vertices[cl.triangles[k] as usize];
            let b = cl.vertices[cl.triangles[k + 1] as usize];
            let d = cl.vertices[cl.triangles[k + 2] as usize];
            out.push((a, b, d));
            k += 3;
        }
        assert(cluster_triangles(*cl).take(cl.triangles@.len() as int / 3) =~= cluster_triangles(*cl));
        assert(clusters@.take(c + 1).drop_last() =~= clusters@.take(c as int));
        c += 1;
    }
    assert(clusters@.take(clusters@.len() as int) =~= clusters@);
    out
}

/// Packs a level's clusters and checks that they hold exactly the level's
/// triangles.
fn finish_level(level_vertices: Vec<Vertex>, level_indices: &Vec<u32>, clusters: &Vec<Cluster>) -> (r: Result<
    MeshLevel,
    MeshError,
>)
    ensures
        (r is Ok) <==> (all_clusters_valid(clusters@, level_vertices@.len()) && level_data(clusters@).len()
            <= u32::MAX && clusters_triangles(clusters@).to_multiset() == triangles_of(
            level_indices@,
        ).to_multiset()),
        r is Ok ==> r->Ok_0.vertices@ == level_vertices@ && packed_from(r->Ok_0, clusters@) && r->Ok_0.wf(),
{
    let nv = level_vertices.len();
    let packed = pack_level(level_vertices, clusters);
    match packed {
        Err(e) => Err(e),
        Ok(level) => {
            let held = collect_cluster_triangles(clusters, nv);
            let wanted = triangle_list(level_indices);
            if same_triangles(&held, &wanted) {
                Ok(level)
            } else {
                Err(MeshError::ClusterTrianglesDiffer)
            }
        },
    }
}

fn copy_vertices(v: &Vec<Vertex>) -> (r: Vec<Vertex>)
    ensures
        r@ == v@,
{
    let mut out: Vec<Vertex> = Vec::with_capacity(v.len());
    let mut i: usize = 0;
    while i < v.len()
        invariant
            i <= v@.len(),
            out@ == v@.take(i as int),
        decreases v@.len() - i,
    {
        out.push(v[i]);
        assert(v@.take(i + 1) =~= v@.take(i as int).push(v@[i as int]));
        i += 1;
    }
    assert(v@.take(v@.len() as int) =~= v@);
    out
}

/// Builds one level: for level 0 the mesh as given, else the simplifier's
/// indices for the level's target, with the vertices they use in the order
/// they first use them; then its clusters, packed.
fn build_level<S, C>(vertices: &Vec<Vertex>, indices: &Vec<u32>, level: u32, simplify: &S, cluster: &C) -> (r: Result<
    MeshLevel,
    MeshError,
>) where S: Fn(&Vec<u32>, &Vec<Vertex>, usize) -> Vec<u32>, C: Fn(&Vec<u32>, &Vec<Vertex>) -> Vec<Cluster>
    requires
        forall|i: &Vec<u32>, v: &Vec<Vertex>, t: usize| #[trigger] simplify.requires((i, v, t)),
        forall|i: &Vec<u32>, v: &Vec<Vertex>| #[trigger] cluster.requires((i, v)),
    ensures
        r is Ok ==> {
            &&& r->Ok_0.wf()
            &&& drawn_from(r->Ok_0.vertices@, vertices@)
            &&& level_built(*simplify, *cluster, vertices, indices, level, r->Ok_0)
        },
        simplifier_sound(*simplify) && clusteriser_sound(*cluster) && (level == 0 ==> uses_all(
            indices@,
            vertices@.len(),
        )) && indices@.len() < u32::MAX && vertices@.len() < u32::MAX ==> r is Ok,
{
    if level == 0 {
        let level_vertices = copy_vertices(vertices);
        let clusters = cluster(indices, &level_vertices);
        if !triangle_count_matches(&clusters, indices.len() / 3) {
            return Err(MeshError::ClusterTriangleCount);
        }
        if let Some(k) = first_unlisted_vertex(&clusters, level_vertices.len()) {
            proof {
                if clusteriser_sound(*cluster) && uses_all(indices@, vertices@.len()) {
                    assert(takes_value(indices@, k as nat));
                }
            }
            return Err(MeshError::UnusedLevelVertex(k));
        }
        let ghost vv = level_vertices;
        let r = finish_level(level_vertices, indices, &clusters);
        proof {
            if r is Ok {
                assert forall|k: int| 0 <= k < r->Ok_0.vertices@.len() implies vertices@.contains(
                    #[trigger] r->Ok_0.vertices@[k],
                ) by {
                    assert(vertices@[k] == r->Ok_0.vertices@[k]);
                }
                assert(level_built_with(*simplify, *cluster, vertices, indices, level, r->Ok_0, (*indices, *indices, vv, clusters)));
            }
        }
        r
    } else {
        let target = lod_target_index_count(indices.len(), level);
        let mut simplified = simplify(indices, vertices, target);
        if simplified.len() > indices.len() {
            return Err(MeshError::SimplificationGrew);
        }
        let ghost s0 = simplified;
        let level_vertices = match reorder_for_fetch(&mut simplified, vertices) {
            Ok(v) => v,
            Err(e) => {
                return Err(e);
            },
        };
        proof {
            assert forall|k: int| 0 <= k < level_vertices@.len() implies vertices@.contains(
                #[trigger] level_vertices@[k],
            ) by {
                assert(crate::optimizer::takes_value(simplified@, k as nat));
                let i = choose|i: int| 0 <= i < simplified@.len() && simplified@[i] as nat == k as nat;
                assert(expand(level_vertices@, simplified@)[i] == expand(vertices@, s0@)[i]);
                assert(vertices@[s0@[i] as int] == level_vertices@[k]);
            }
        }
        let clusters = cluster(&simplified, &level_vertices);
        if !triangle_count_matches(&clusters, simplified.len() / 3) {
            return Err(MeshError::ClusterTriangleCount);
        }
        if let Some(k) = first_unlisted_vertex(&clusters, level_vertices.len()) {
            proof {
                if clusteriser_sound(*cluster) {
                    assert(takes_value(simplified@, k as nat));
                }
            }
            return Err(MeshError::UnusedLevelVertex(k));
        }
        let ghost vv = level_vertices;
        let r = finish_level(level_vertices, &simplified, &clusters);
        proof {
            if r is Ok {
                assert(level_built_with(*simplify, *cluster, vertices, indices, level, r->Ok_0, (s0, simplified, vv, clusters)));
            }
        }
        r
    }
}

/// Builds `num_levels` levels of detail of a prepared mesh, finest first.
/// `simplify` reduces an index list towards a target index count, and
/// `cluster` splits a level's geometry into clusters; what they hand back is
/// checked before it is used: a level's clusters must hold exactly its
/// triangles, each as often with corners in order, and list every vertex.
///
/// On success there are exactly `num_levels` levels, every level draws only
/// vertices of the given mesh, and each level is exactly the packing of the
/// clusters handed back for its geometry: level 0 the given mesh as it is,
/// level `l` the simplifier's result for `indices.len() / 2^l` indices,
/// renumbered by first use. When both helpers hand back well-formed
/// results, the chain succeeds.
pub fn build_lod_chain<S, C>(
    vertices: &Vec<Vertex>,
    indices: &Vec<u32>,
    num_levels: u32,
    simplify: S,
    cluster: C,
) -> (r: Result<Mesh, MeshError>) where
    S: Fn(&Vec<u32>, &Vec<Vertex>, usize) -> Vec<u32>,
    C: Fn(&Vec<u32>, &Vec<Vertex>) -> Vec<Cluster>,

    requires
        forall|i: &Vec<u32>, v: &Vec<Vertex>, t: usize| #[trigger] simplify.requires((i, v, t)),
        forall|i: &Vec<u32>, v: &Vec<Vertex>| #[trigger] cluster.requires((i, v)),
    ensures
        num_levels == 0 ==> r == Err::<Mesh, MeshError>(MeshError::NoLevels),
        num_levels >= 1 && simplifier_sound(simplify) && clusteriser_sound(cluster) && uses_all(
            indices@,
            vertices@.len(),
        ) && indices@.len() < u32::MAX && vertices@.len() < u32::MAX ==> r is Ok,
        r is Ok ==> chain_built(simplify, cluster, vertices, indices, num_levels, r->Ok_0),
{
    if num_levels == 0 {
        return Err(MeshError::NoLevels);
    }
    let mut levels: Vec<MeshLevel> = Vec::new();
    let mut l: u32 = 0;
    while l < num_levels
        invariant
            l <= num_levels,
            levels@.len() == l,
            forall|i: &Vec<u32>, v: &Vec<Vertex>, t: usize| #[trigger] simplify.requires((i, v, t)),
            forall|i: &Vec<u32>, v: &Vec<Vertex>| #[trigger] cluster.requires((i, v)),
            forall|k: int| 0 <= k < l ==> (#[trigger] levels@[k]).wf(),
            forall|k: int| 0 <= k < l ==> drawn_from(#[trigger] levels@[k].vertices@, vertices@),
            forall|k: int|
                0 <= k < l ==> level_built(simplify, cluster, vertices, indices, k as u32, #[trigger] levels@[k]),
            l > 0 ==> levels@[0].vertices@ == vertices@,
            simplifier_sound(simplify) && clusteriser_sound(cluster) && uses_all(indices@, vertices@.len())
                && indices@.len() < u32::MAX && vertices@.len() < u32::MAX ==> num_levels >= 1,
        decreases num_levels - l,
    {
        let level = match build_level(vertices, indices, l, &simplify, &cluster) {
            Ok(level) => level,
            Err(e) => {
                assert(!(simplifier_sound(simplify) && clusteriser_sound(cluster) && uses_all(
                    indices@,
                    vertices@.len(),
                ) && indices@.len() < u32::MAX && vertices@.len() < u32::MAX));
                return Err(e);
            },
        };
        levels.push(level);
        assert forall|k: int| 0 <= k < l + 1 implies level_built(
            simplify,
            cluster,
            vertices,
            indices,
            k as u32,
            #[trigger] levels@[k],
        ) by {}
        l += 1;
    }
    let r = Mesh::from_levels(levels);
    proof {
        if r is Ok {
            assert(chain_built(simplify, cluster, vertices, indices, num_levels, r->Ok_0));
        }
    }
    r
}

/// A triangle's corners looked up in a vertex list.
pub open spec fn vertex_triangle(vs: Seq<Vertex>, t: Tri) -> (Vertex, Vertex, Vertex) {
    (vs[t.0 as int], vs[t.1 as int], vs[t.2 as int])
}

/// Triangles as the vertices their corners name.
pub open spec fn vertex_triangles(vs: Seq<Vertex>, ts: Seq<Tri>) -> Seq<(Vertex, Vertex, Vertex)> {
    ts.map_values(|t: Tri| vertex_triangle(vs, t))
}

/// The triangles that a list of corner vertices draws, three corners each.
pub open spec fn corner_triangles(ex: Seq<Vertex>) -> Seq<(Vertex, Vertex, Vertex)> {
    Seq::new(ex.len() / 3, |f: int| (ex[3 * f], ex[3 * f + 1], ex[3 * f + 2]))
}

/// `level`, read through the clusters `cs` it packs, draws exactly the
/// triangles of the corner vertices `ex` that the corners gather: the same
/// triangles, each as often, corners bit-identical and in order.
pub open spec fn redraws_corners_with(
    p: Seq<u32>,
    t: Seq<u32>,
    n: Seq<u32>,
    corners: Seq<CornerIndex>,
    level: MeshLevel,
    w: (Seq<Vertex>, Seq<Cluster>),
) -> bool {
    let (ex, cs) = w;
    &&& ex.len() == corners.len()
    &&& forall|i: int| 0 <= i < corners.len() ==> gathered(#[trigger] ex[i], p, t, n, corners[i])
    &&& packed_from(level, cs)
    &&& vertex_triangles(level.vertices@, clusters_triangles(cs)).to_multiset() == corner_triangles(
        ex,
    ).to_multiset()
}

/// [`redraws_corners_with`] for some gathered corners and clusters.
pub open spec fn redraws_corners(
    p: Seq<u32>,
    t: Seq<u32>,
    n: Seq<u32>,
    corners: Seq<CornerIndex>,
    level: MeshLevel,
) -> bool {
    exists|w: (Seq<Vertex>, Seq<Cluster>)| #[trigger] redraws_corners_with(p, t, n, corners, level, w)
}

/// Following the corner triangles through merging, cache order, overdraw
/// order, fetch order and clustering keeps them, as a multiset of vertex
/// triangles.
proof fn lemma_triangles_follow(
    ex: Seq<Vertex>,
    dedup: Seq<u32>,
    pv: Seq<Vertex>,
    pidx: Seq<u32>,
    od: Seq<u32>,
    fv: Seq<Vertex>,
    fidx: Seq<u32>,
    cs: Seq<Cluster>,
)
    requires
        expand(pv, dedup) == ex,
        triangles_of(pidx).to_multiset() == triangles_of(dedup).to_multiset(),
        triangles_of(od).to_multiset() == triangles_of(pidx).to_multiset(),
        fidx.len() == od.len(),
        expand(fv, fidx) == expand(pv, od),
        clusters_triangles(cs).to_multiset() == triangles_of(fidx).to_multiset(),
    ensures
        vertex_triangles(fv, clusters_triangles(cs)).to_multiset() == corner_triangles(ex).to_multiset(),
{
    let fp = |tr: Tri| vertex_triangle(pv, tr);
    let ff = |tr: Tri| vertex_triangle(fv, tr);
    assert(vertex_triangles(pv, triangles_of(dedup)) =~= corner_triangles(ex)) by {
        assert forall|f: int| 0 <= f < ex.len() / 3 implies vertex_triangles(pv, triangles_of(dedup))[f]
            == corner_triangles(ex)[f] by {
            assert(ex[3 * f] == expand(pv, dedup)[3 * f]);
            assert(ex[3 * f + 1] == expand(pv, dedup)[3 * f + 1]);
            assert(ex[3 * f + 2] == expand(pv, dedup)[3 * f + 2]);
        }
    }
    lemma_map_keeps_multiset(triangles_of(pidx), triangles_of(dedup), fp);
    lemma_map_keeps_multiset(triangles_of(od), triangles_of(pidx), fp);
    assert(vertex_triangles(fv, triangles_of(fidx)) =~= vertex_triangles(pv, triangles_of(od))) by {
        assert forall|f: int| 0 <= f < fidx.len() / 3 implies vertex_triangles(fv, triangles_of(fidx))[f]
            == vertex_triangles(pv, triangles_of(od))[f] by {
            assert(3 * f + 2 < fidx.len());
            let a = triangles_of(fidx)[f];
            let b = triangles_of(od)[f];
            assert(a == (fidx[3 * f], fidx[3 * f + 1], fidx[3 * f + 2]));
            assert(b == (od[3 * f], od[3 * f + 1], od[3 * f + 2]));
            assert(vertex_triangles(fv, triangles_of(fidx))[f] == vertex_triangle(fv, a));
            assert(vertex_triangles(pv, triangles_of(od))[f] == vertex_triangle(pv, b));
            assert(expand(fv, fidx)[3 * f] == expand(pv, od)[3 * f]);
            assert(expand(fv, fidx)[3 * f + 1] == expand(pv, od)[3 * f + 1]);
            assert(expand(fv, fidx)[3 * f + 2] == expand(pv, od)[3 * f + 2]);
            assert(expand(fv, fidx)[3 * f] == fv[fidx[3 * f] as int]);
            assert(expand(fv, fidx)[3 * f + 1] == fv[fidx[3 * f + 1] as int]);
            assert(expand(fv, fidx)[3 * f + 2] == fv[fidx[3 * f + 2] as int]);
            assert(expand(pv, od)[3 * f] == pv[od[3 * f] as int]);
            assert(expand(pv, od)[3 * f + 1] == pv[od[3 * f + 1] as int]);
            assert(expand(pv, od)[3 * f + 2] == pv[od[3 * f + 2] as int]);
        }
    }
    lemma_map_keeps_multiset(clusters_triangles(cs), triangles_of(fidx), ff);
}

/// Whatever the overdraw pass hands back is the triangles it was given,
/// reordered: same length, same triangles, corners in order.
pub open spec fn reorder_sound<O: Fn(&Vec<u32>, &Vec<Vertex>) -> Vec<u32>>(overdraw: O) -> bool {
    forall|i: &Vec<u32>, v: &Vec<Vertex>, out: Vec<u32>|
        #[trigger] overdraw.ensures((i, v), out) ==> out@.len() == i@.len() && triangles_of(
            out@,
        ).to_multiset() == triangles_of(i@).to_multiset() && out@.len() % 3 == 0 && indices_below(
            out@,
            v@.len(),
        )
}

/// Every corner names attributes that exist.
pub open spec fn corners_in_range(p: Seq<u32>, t: Seq<u32>, n: Seq<u32>, corners: Seq<CornerIndex>) -> bool {
    forall|i: int| 0 <= i < corners.len() ==> corner_in_range(#[trigger] corners[i], p.len(), t.len(), n.len())
}

/// `mesh` is what loading the corners gives, through `w = (pv, pidx, od,
/// fv, fidx)`: `(pv, pidx)` is the preparation of the corners, `od` what the
/// overdraw pass handed back for it, `(fv, fidx)` that renumbered by first
/// use, and `mesh` the level-of-detail chain over `(fv, fidx)`.
pub open spec fn loaded_with<O, S, C>(
    overdraw: O,
    simplify: S,
    cluster: C,
    p: Seq<u32>,
    t: Seq<u32>,
    n: Seq<u32>,
    corners: Seq<CornerIndex>,
    num_levels: u32,
    mesh: Mesh,
    w: (Vec<Vertex>, Vec<u32>, Vec<u32>, Vec<Vertex>, Vec<u32>),
) -> bool where
    O: Fn(&Vec<u32>, &Vec<Vertex>) -> Vec<u32>,
    S: Fn(&Vec<u32>, &Vec<Vertex>, usize) -> Vec<u32>,
    C: Fn(&Vec<u32>, &Vec<Vertex>) -> Vec<Cluster>,
 {
    let (pv, pidx, od, fv, fidx) = w;
    &&& prepared(p, t, n, corners, pv@, pidx@)
    &&& overdraw.ensures((&pidx, &pv), od)
    &&& od@.len() == pidx@.len()
    &&& triangles_of(od@).to_multiset() == triangles_of(pidx@).to_multiset()
    &&& od@.len() % 3 == 0
    &&& indices_below(od@, pv@.len())
    &&& expand(fv@, fidx@) == expand(pv@, od@)
    &&& is_first_use_numbering(od@, fidx@, fv@.len())
    &&& chain_built(simplify, cluster, &fv, &fidx, num_levels, mesh)
}

impl Mesh {
    /// Loads a mesh from face-corner input: prepares it (one vertex per
    /// corner, bit-identical vertices merged, triangles in vertex-cache
    /// order), lets `overdraw` reorder its triangles, renumbers the vertices
    /// by first use, and builds `num_levels` levels of detail with
    /// `simplify` and `cluster` (see [`build_lod_chain`]).
    ///
    /// What the helpers hand back is checked: the overdraw pass must return
    /// the same triangles, each level's clusters must hold exactly that
    /// level's triangles. On success level 0, read through its meshlets,
    /// draws exactly the triangles of the input corners, each as often, with
    /// bit-identical corners in order.
    ///
    /// Fails on input that is not whole triangles, that has more corners
    /// than 32-bit indices address, or with a corner naming no attribute;
    /// else when a helper hands back something malformed. When the input is
    /// sound and the helpers are, it succeeds.
    pub fn new<O, S, C>(
        positions: &Vec<u32>,
        tex_coords: &Vec<u32>,
        normals: &Vec<u32>,
        corners: &Vec<CornerIndex>,
        num_levels: u32,
        overdraw: O,
        simplify: S,
        cluster: C,
    ) -> (r: Result<Mesh, MeshError>) where
        O: Fn(&Vec<u32>, &Vec<Vertex>) -> Vec<u32>,
        S: Fn(&Vec<u32>, &Vec<Vertex>, usize) -> Vec<u32>,
        C: Fn(&Vec<u32>, &Vec<Vertex>) -> Vec<Cluster>,

        requires
            forall|i: &Vec<u32>, v: &Vec<Vertex>| #[trigger] overdraw.requires((i, v)),
            forall|i: &Vec<u32>, v: &Vec<Vertex>, t: usize| #[trigger] simplify.requires((i, v, t)),
            forall|i: &Vec<u32>, v: &Vec<Vertex>| #[trigger] cluster.requires((i, v)),
        ensures
            corners@.len() % 3 != 0 ==> r == Err::<Mesh, MeshError>(MeshError::NotTriangles),
            corners@.len() % 3 == 0 && corners@.len() >= u32::MAX ==> r == Err::<Mesh, MeshError>(
                MeshError::TooManyCorners,
            ),
            corners@.len() % 3 == 0 && corners@.len() < u32::MAX && !corners_in_range(
                positions@,
                tex_coords@,
                normals@,
                corners@,
            ) ==> exists|i: int|
                #[trigger] first_bad_corner(positions@, tex_coords@, normals@, corners@, i) && r
                    == Err::<Mesh, MeshError>(MeshError::IndexOutOfRange(i as usize)),
            corners@.len() % 3 == 0 && corners@.len() < u32::MAX && corners_in_range(
                positions@,
                tex_coords@,
                normals@,
                corners@,
            ) && reorder_sound(overdraw) ==> (num_levels == 0 ==> r == Err::<Mesh, MeshError>(
                MeshError::NoLevels,
            )) && (num_levels >= 1 && simplifier_sound(simplify) && clusteriser_sound(cluster)
                ==> r is Ok),
            r is Ok ==> redraws_corners(positions@, tex_coords@, normals@, corners@, r->Ok_0.levels@[0]),
            r is Ok ==> exists|w: (Vec<Vertex>, Vec<u32>, Vec<u32>, Vec<Vertex>, Vec<u32>)|
                #[trigger] loaded_with(
                    overdraw,
                    simplify,
                    cluster,
                    positions@,
                    tex_coords@,
                    normals@,
                    corners@,
                    num_levels,
                    r->Ok_0,
                    w,
                ),
    {
        let (vertices, indices) = match prepare_mesh(positions, tex_coords, normals, corners) {
            Ok(x) => x,
            Err(e) => {
                let res: Result<Mesh, MeshError> = Err(e);
                proof {
                    if corners@.len() % 3 == 0 && corners@.len() < u32::MAX && !corners_in_range(
                        positions@,
                        tex_coords@,
                        normals@,
                        corners@,
                    ) {
                        let i = choose|i: int| 0 <= i < corners@.len() && !corner_in_range(
                            #[trigger] corners@[i],
                            positions@.len(),
                            tex_coords@.len(),
                            normals@.len(),
                        );
                        assert(e is IndexOutOfRange);
                        assert(first_bad_corner(positions@, tex_coords@, normals@, corners@, e->IndexOutOfRange_0 as int));
                    }
                }
                return res;
            },
        };
        let mut ordered = overdraw(&indices, &vertices);
        if ordered.len() != indices.len() || !same_triangles(&triangle_list(&ordered), &triangle_list(&indices)) {
            return Err(MeshError::OverdrawChangedTriangles);
        }
        let ghost od = ordered;
        let fetched = match reorder_for_fetch(&mut ordered, &vertices) {
            Ok(v) => v,
            Err(e) => {
                return Err(e);
            },
        };
        proof {
            od@.lemma_cardinality_of_set();
        }
        let ghost w = (vertices, indices, od, fetched, ordered);
        let ghost sg = simplify;
        let ghost cg = cluster;
        let r = build_lod_chain(&fetched, &ordered, num_levels, simplify, cluster);
        proof {
            if r is Ok {
                assert(loaded_with(overdraw, sg, cg, positions@, tex_coords@, normals@, corners@, num_levels, r->Ok_0, w));
                let level0 = r->Ok_0.levels@[0];
                assert(level_built(sg, cg, &fetched, &ordered, 0, level0));
                let w2 = choose|w2: (Vec<u32>, Vec<u32>, Vec<Vertex>, Vec<Cluster>)|
                    level_built_with(sg, cg, &fetched, &ordered, 0, level0, w2);
                let w0 = choose|w0: (Seq<Vertex>, Seq<u32>)|
                    prepared_with(positions@, tex_coords@, normals@, corners@, w0, w.0@, w.1@);
                lemma_triangles_follow(w0.0, w0.1, w.0@, w.1@, od@, fetched@, ordered@, w2.3@);
                assert(redraws_corners_with(positions@, tex_coords@, normals@, corners@, level0, (w0.0, w2.3@)));
            }
        }
        r
    }
}

} // verus!
