//! Packing clusters into meshlets and the shared meshlet-data array that the
//! mesh shader reads, and reading triangles back out of it.
use crate::mesh::{Mesh, MeshError, MeshLevel, Meshlet, Vertex, MAX_TRIANGLES, MAX_VERTICES};
use vstd::prelude::*;

verus! {

/// One cluster as the clusteriser hands it over: the level vertices it uses
/// (local index to level index), and its triangles as local indices, three
/// bytes per triangle.
#[derive(Clone, Debug)]
pub struct Cluster {
    pub vertices: Vec<u32>,
    pub triangles: Vec<u8>,
}

impl Cluster {
    pub fn new(vertices: Vec<u32>, triangles: Vec<u8>) -> (r: Self)
        ensures
            r.vertices@ == vertices@,
            r.triangles@ == triangles@,
    {
        Cluster { vertices, triangles }
    }
}

/// Byte `k` of the triangle bytes, or zero past their end.
pub open spec fn lane(t: Seq<u8>, k: int) -> u32 {
    if 0 <= k < t.len() {
        t[k] as u32
    } else {
        0
    }
}

/// Word `j` of the packed triangle bytes: bytes `4j .. 4j + 3`, the first in
/// the highest byte.
pub open spec fn pack_word(t: Seq<u8>, j: int) -> u32 {
    (lane(t, 4 * j) << 24u32) | (lane(t, 4 * j + 1) << 16u32) | (lane(t, 4 * j + 2) << 8u32) | lane(
        t,
        4 * j + 3,
    )
}

/// Number of words that `len` triangle bytes take.
pub open spec fn word_count(len: nat) -> nat {
    (len + 3) / 4
}

/// The triangle bytes packed four to a word, the last word zero-filled.
pub open spec fn packed_triangles(t: Seq<u8>) -> Seq<u32> {
    Seq::new(word_count(t.len()), |j: int| pack_word(t, j))
}

/// What one cluster adds to the meshlet data: its vertex indices, then its
/// packed triangles.
pub open spec fn cluster_words(c: Cluster) -> Seq<u32> {
    c.vertices@ + packed_triangles(c.triangles@)
}

/// The meshlet data of a sequence of clusters, one after another.
pub open spec fn level_data(cs: Seq<Cluster>) -> Seq<u32>
    decreases cs.len(),
{
    if cs.len() == 0 {
        Seq::empty()
    } else {
        level_data(cs.drop_last()) + cluster_words(cs.last())
    }
}

/// Where cluster `i` starts in the meshlet data.
pub open spec fn cluster_offset(cs: Seq<Cluster>, i: int) -> nat {
    level_data(cs.take(i)).len()
}

/// The cluster fits the meshlet caps and is whole triangles, at least one.
pub open spec fn cluster_within_caps(c: Cluster) -> bool {
    &&& c.vertices@.len() <= MAX_VERTICES
    &&& c.triangles@.len() % 3 == 0
    &&& 3 <= c.triangles@.len() <= 3 * MAX_TRIANGLES
}

/// Every index of the cluster names something that exists.
pub open spec fn cluster_indices_in_range(c: Cluster, level_vertices: nat) -> bool {
    &&& forall|k: int| 0 <= k < c.triangles@.len() ==> (#[trigger] c.triangles@[k] as nat) < c.vertices@.len()
    &&& forall|k: int| 0 <= k < c.vertices@.len() ==> (#[trigger] c.vertices@[k] as nat) < level_vertices
}

/// No level vertex occurs twice among the cluster's vertices.
pub open spec fn cluster_vertices_distinct(c: Cluster) -> bool {
    forall|a: int, b: int|
        0 <= a < c.vertices@.len() && 0 <= b < c.vertices@.len() && a != b ==> #[trigger] c.vertices@[a]
            != #[trigger] c.vertices@[b]
}

/// The cluster keeps to the caps, names only what exists, and lists each
/// of its vertices once.
pub open spec fn cluster_valid(c: Cluster, level_vertices: nat) -> bool {
    &&& cluster_within_caps(c)
    &&& cluster_indices_in_range(c, level_vertices)
    &&& cluster_vertices_distinct(c)
}

/// The error that names cluster `i` when it is not valid.
pub open spec fn cluster_error(c: Cluster, level_vertices: nat, i: int) -> MeshError {
    if !cluster_within_caps(c) {
        MeshError::ClusterOverCaps(i as usize)
    } else if !cluster_indices_in_range(c, level_vertices) {
        MeshError::ClusterIndexOutOfRange(i as usize)
    } else {
        MeshError::ClusterRepeatsVertex(i as usize)
    }
}

/// Cluster `i` is the first that is not valid, and the error says how.
pub open spec fn first_bad_cluster(cs: Seq<Cluster>, level_vertices: nat, i: int, e: MeshError) -> bool {
    &&& 0 <= i < cs.len()
    &&& !cluster_valid(cs[i], level_vertices)
    &&& forall|j: int| 0 <= j < i ==> cluster_valid(#[trigger] cs[j], level_vertices)
    &&& e == cluster_error(cs[i], level_vertices, i)
}

/// Byte `k` of the triangle bytes packed from word `start` of `data` on.
pub open spec fn unpacked_byte(data: Seq<u32>, start: int, k: int) -> u8 {
    let w = data[start + k / 4];
    let l = k % 4;
    if l == 0 {
        (w >> 24u32) as u8
    } else if l == 1 {
        ((w >> 16u32) & 0xffu32) as u8
    } else if l == 2 {
        ((w >> 8u32) & 0xffu32) as u8
    } else {
        (w & 0xffu32) as u8
    }
}

proof fn lemma_word_lanes(b0: u32, b1: u32, b2: u32, b3: u32)
    requires
        b0 < 256,
        b1 < 256,
        b2 < 256,
        b3 < 256,
    ensures
        ({
            let w = (b0 << 24u32) | (b1 << 16u32) | (b2 << 8u32) | b3;
            &&& (w >> 24u32) == b0
            &&& ((w >> 16u32) & 0xffu32) == b1
            &&& ((w >> 8u32) & 0xffu32) == b2
            &&& (w & 0xffu32) == b3
        }),
{
    assert(((b0 << 24u32) | (b1 << 16u32) | (b2 << 8u32) | b3) >> 24u32 == b0) by (bit_vector)
        requires
            b0 < 256,
            b1 < 256,
            b2 < 256,
            b3 < 256,
    ;
    assert((((b0 << 24u32) | (b1 << 16u32) | (b2 << 8u32) | b3) >> 16u32) & 0xffu32 == b1)
        by (bit_vector)
        requires
            b0 < 256,
            b1 < 256,
            b2 < 256,
            b3 < 256,
    ;
    assert((((b0 << 24u32) | (b1 << 16u32) | (b2 << 8u32) | b3) >> 8u32) & 0xffu32 == b2)
        by (bit_vector)
        requires
            b0 < 256,
            b1 < 256,
            b2 < 256,
            b3 < 256,
    ;
    assert(((b0 << 24u32) | (b1 << 16u32) | (b2 << 8u32) | b3) & 0xffu32 == b3) by (bit_vector)
        requires
            b0 < 256,
            b1 < 256,
            b2 < 256,
            b3 < 256,
    ;
}

/// Unpacking the packed triangle bytes gives each byte back, and zero in
/// the lanes past the last byte.
pub proof fn lemma_unpack_packed(t: Seq<u8>, k: int)
    requires
        0 <= k < 4 * word_count(t.len()),
    ensures
        unpacked_byte(packed_triangles(t), 0, k) == (if k < t.len() {
            t[k]
        } else {
            0u8
        }),
{
    let j = k / 4;
    assert(0 <= j < word_count(t.len()));
    lemma_word_lanes(lane(t, 4 * j), lane(t, 4 * j + 1), lane(t, 4 * j + 2), lane(t, 4 * j + 3));
    assert(k == 4 * j + k % 4);
}

/// The meshlet record of cluster `i`.
pub open spec fn meshlet_of(cs: Seq<Cluster>, i: int) -> Meshlet {
    Meshlet {
        data_offset: cluster_offset(cs, i) as u32,
        vertex_count: cs[i].vertices@.len() as u32,
        triangle_count: (cs[i].triangles@.len() / 3) as u32,
    }
}

pub open spec fn all_clusters_valid(cs: Seq<Cluster>, level_vertices: nat) -> bool {
    forall|j: int| 0 <= j < cs.len() ==> cluster_valid(#[trigger] cs[j], level_vertices)
}

proof fn lemma_level_data_step(cs: Seq<Cluster>, i: int)
    requires
        0 <= i < cs.len(),
    ensures
        level_data(cs.take(i + 1)) == level_data(cs.take(i)) + cluster_words(cs[i]),
{
    assert(cs.take(i + 1).drop_last() =~= cs.take(i));
    assert(cs.take(i + 1).last() == cs[i]);
}

/// The data of the first `i` clusters begins the data of the first `j`.
proof fn lemma_level_data_prefix(cs: Seq<Cluster>, i: int, j: int)
    requires
        0 <= i <= j <= cs.len(),
    ensures
        cluster_offset(cs, i) <= cluster_offset(cs, j),
        level_data(cs.take(j)).subrange(0, cluster_offset(cs, i) as int) == level_data(cs.take(i)),
    decreases j - i,
{
    if i == j {
        assert(level_data(cs.take(j)).subrange(0, cluster_offset(cs, i) as int) =~= level_data(cs.take(i)));
    } else {
        lemma_level_data_prefix(cs, i, j - 1);
        lemma_level_data_step(cs, j - 1);
        assert(level_data(cs.take(j)).subrange(0, cluster_offset(cs, i) as int) =~= level_data(
            cs.take(j - 1),
        ).subrange(0, cluster_offset(cs, i) as int));
    }
}

/// Cluster `i`'s words stand in the level data at its offset.
pub proof fn lemma_cluster_in_level_data(cs: Seq<Cluster>, i: int, m: int)
    requires
        0 <= i < cs.len(),
        0 <= m < cluster_words(cs[i]).len(),
    ensures
        cluster_offset(cs, i) + cluster_words(cs[i]).len() <= level_data(cs).len(),
        level_data(cs)[cluster_offset(cs, i) + m] == cluster_words(cs[i])[m],
{
    lemma_level_data_step(cs, i);
    lemma_level_data_prefix(cs, i + 1, cs.len() as int);
    assert(cs.take(cs.len() as int) =~= cs);
    let pre = level_data(cs.take(i + 1));
    assert(level_data(cs).subrange(0, pre.len() as int)[cluster_offset(cs, i) + m] == pre[cluster_offset(
        cs,
        i,
    ) + m]);
}

/// Meshlet records are contiguous: the first starts at word 0, each next
/// one where the previous one's vertex indices and packed triangles end,
/// and the data ends where the last one ends.
pub proof fn lemma_meshlets_contiguous(cs: Seq<Cluster>, k: int)
    requires
        0 <= k < cs.len(),
    ensures
        cluster_offset(cs, 0) == 0,
        cluster_offset(cs, k + 1) == cluster_offset(cs, k) + cs[k].vertices@.len() + word_count(
            cs[k].triangles@.len(),
        ),
        cluster_offset(cs, cs.len() as int) == level_data(cs).len(),
{
    assert(cs.take(0) =~= Seq::<Cluster>::empty());
    lemma_level_data_step(cs, k);
    assert(cs.take(cs.len() as int) =~= cs);
}

/// Checks one cluster: `None` when it is valid, else the error that names it.
fn check_cluster(c: &Cluster, i: usize, level_vertices: usize) -> (r: Option<MeshError>)
    ensures
        r is None <==> cluster_valid(*c, level_vertices as nat),
        r is Some ==> r == Some(cluster_error(*c, level_vertices as nat, i as int)),
{
    let nt = c.triangles.len();
    if c.vertices.len() > MAX_VERTICES || nt % 3 != 0 || nt < 3 || nt > 3 * MAX_TRIANGLES {
        return Some(MeshError::ClusterOverCaps(i));
    }
    let mut k: usize = 0;
    while k < nt
        invariant
            nt == c.triangles@.len(),
            k <= nt,
            cluster_within_caps(*c),
            forall|kk: int| 0 <= kk < k ==> (#[trigger] c.triangles@[kk] as nat) < c.vertices@.len(),
        decreases nt - k,
    {
        if c.triangles[k] as usize >= c.vertices.len() {
            return Some(MeshError::ClusterIndexOutOfRange(i));
        }
        k += 1;
    }
    let mut k: usize = 0;
    while k < c.vertices.len()
        invariant
            k <= c.vertices@.len(),
            cluster_within_caps(*c),
            forall|kk: int| 0 <= kk < c.triangles@.len() ==> (#[trigger] c.triangles@[kk] as nat)
                < c.vertices@.len(),
            forall|kk: int| 0 <= kk < k ==> (#[trigger] c.vertices@[kk] as nat) < level_vertices,
        decreases c.vertices@.len() - k,
    {
        if c.vertices[k] as usize >= level_vertices {
            return Some(MeshError::ClusterIndexOutOfRange(i));
        }
        k += 1;
    }
    let nv = c.vertices.len();
    let mut a: usize = 0;
    while a < nv
        invariant
            nv == c.vertices@.len(),
            a <= nv,
            cluster_within_caps(*c),
            cluster_indices_in_range(*c, level_vertices as nat),
            forall|x: int, y: int| 0 <= x < a && x < y < nv ==> c.vertices@[x] != c.vertices@[y],
        decreases nv - a,
    {
        let mut b: usize = a + 1;
        while b < nv
            invariant
                nv == c.vertices@.len(),
                a < nv,
                a + 1 <= b <= nv,
                cluster_within_caps(*c),
                cluster_indices_in_range(*c, level_vertices as nat),
                forall|x: int, y: int| 0 <= x < a && x < y < nv ==> c.vertices@[x] != c.vertices@[y],
                forall|y: int| a < y < b ==> c.vertices@[a as int] != c.vertices@[y],
            decreases nv - b,
        {
            if c.vertices[a] == c.vertices[b] {
                return Some(MeshError::ClusterRepeatsVertex(i));
            }
            b += 1;
        }
        a += 1;
    }
    assert forall|x: int, y: int|
        0 <= x < nv && 0 <= y < nv && x != y implies #[trigger] c.vertices@[x] != #[trigger] c.vertices@[y] by {
        if x > y {
            assert(c.vertices@[y] != c.vertices@[x]);
        }
    }
    None
}

/// Word `j` of the cluster's packed triangles.
fn packed_word(t: &Vec<u8>, j: usize) -> (r: u32)
    requires
        t@.len() <= 3 * MAX_TRIANGLES,
        j < word_count(t@.len()),
    ensures
        r == pack_word(t@, j as int),
{
    let k = 4 * j;
    let b0: u32 = if k < t.len() { t[k] as u32 } else { 0 };
    let b1: u32 = if k + 1 < t.len() { t[k + 1] as u32 } else { 0 };
    let b2: u32 = if k + 2 < t.len() { t[k + 2] as u32 } else { 0 };
    let b3: u32 = if k + 3 < t.len() { t[k + 3] as u32 } else { 0 };
    (b0 << 24u32) | (b1 << 16u32) | (b2 << 8u32) | b3
}

/// Appends one cluster's words to the meshlet data.
fn append_cluster(data: &mut Vec<u32>, c: &Cluster)
    requires
        cluster_within_caps(*c),
    ensures
        final(data)@ == old(data)@ + cluster_words(*c),
{
    let mut j: usize = 0;
    while j < c.vertices.len()
        invariant
            j <= c.vertices@.len(),
            data@ == old(data)@ + c.vertices@.take(j as int),
        decreases c.vertices@.len() - j,
    {
        data.push(c.vertices[j]);
        assert(c.vertices@.take(j + 1) =~= c.vertices@.take(j as int).push(c.vertices@[j as int]));
        j += 1;
    }
    assert(c.vertices@.take(c.vertices@.len() as int) =~= c.vertices@);
    let nw: usize = (c.triangles.len() + 3) / 4;
    let ghost base = data@;
    let mut j: usize = 0;
    while j < nw
        invariant
            nw == word_count(c.triangles@.len()),
            cluster_within_caps(*c),
            j <= nw,
            data@ == base + packed_triangles(c.triangles@).take(j as int),
        decreases nw - j,
    {
        let w = packed_word(&c.triangles, j);
        data.push(w);
        assert(packed_triangles(c.triangles@).take(j + 1) =~= packed_triangles(c.triangles@).take(
            j as int,
        ).push(w));
        j += 1;
    }
    assert(packed_triangles(c.triangles@).take(nw as int) =~= packed_triangles(c.triangles@));
    assert(data@ =~= old(data)@ + cluster_words(*c));
}

/// Packs the clusters of one level into meshlets and their shared data:
/// for each cluster in turn, its offset is where the data stands, then its
/// vertex indices are written, one word each, then its triangle bytes four
/// to a word, the first byte highest, the last word zero-filled.
///
/// Fails on the first cluster over the caps, without a triangle, or with an
/// index that names nothing; else when the data would outgrow 32-bit
/// offsets.
pub fn pack_level(vertices: Vec<Vertex>, clusters: &Vec<Cluster>) -> (r: Result<MeshLevel, MeshError>)
    ensures
        all_clusters_valid(clusters@, vertices@.len()) ==> ((r is Ok) <==> level_data(clusters@).len()
            <= u32::MAX),
        all_clusters_valid(clusters@, vertices@.len()) && level_data(clusters@).len() > u32::MAX ==> r
            == Err::<MeshLevel, MeshError>(MeshError::MeshletDataTooLarge),
        !all_clusters_valid(clusters@, vertices@.len()) ==> r is Err && exists|i: int|
            #[trigger] first_bad_cluster(clusters@, vertices@.len(), i, r->Err_0),
        r is Ok ==> {
            let level = r->Ok_0;
            &&& level.vertices@ == vertices@
            &&& level.meshlets@ == Seq::new(clusters@.len(), |i: int| meshlet_of(clusters@, i))
            &&& level.meshlet_data@ == level_data(clusters@)
            &&& level.wf()
            &&& packed_from(level, clusters@)
        },
{
    let n = vertices.len();
    let mut i: usize = 0;
    while i < clusters.len()
        invariant
            n == vertices@.len(),
            i <= clusters@.len(),
            forall|j: int| 0 <= j < i ==> cluster_valid(#[trigger] clusters@[j], n as nat),
        decreases clusters@.len() - i,
    {
        match check_cluster(&clusters[i], i, n) {
            Some(e) => {
                let res: Result<MeshLevel, MeshError> = Err(e);
                assert(first_bad_cluster(clusters@, n as nat, i as int, res->Err_0));
                return res;
            },
            None => {},
        }
        i += 1;
    }
    let mut data: Vec<u32> = Vec::new();
    let mut meshlets: Vec<Meshlet> = Vec::new();
    let mut i: usize = 0;
    while i < clusters.len()
        invariant
            n == vertices@.len(),
            i <= clusters@.len(),
            all_clusters_valid(clusters@, n as nat),
            data@ == level_data(clusters@.take(i as int)),
            data@.len() <= u32::MAX,
            meshlets@ == Seq::new(i as nat, |k: int| meshlet_of(clusters@, k)),
        decreases clusters@.len() - i,
    {
        let c = &clusters[i];
        assert(cluster_valid(clusters@[i as int], n as nat));
        let nw: usize = c.vertices.len() + (c.triangles.len() + 3) / 4;
        proof {
            lemma_level_data_step(clusters@, i as int);
        }
        if nw as u64 > 0xffff_ffffu64 - data.len() as u64 {
            proof {
                lemma_level_data_prefix(clusters@, i + 1, clusters@.len() as int);
                assert(clusters@.take(clusters@.len() as int) =~= clusters@);
            }
            return Err(MeshError::MeshletDataTooLarge);
        }
        let offset = data.len() as u32;
        append_cluster(&mut data, c);
        let m = Meshlet::new(offset, c.vertices.len() as u32, (c.triangles.len() / 3) as u32);
        meshlets.push(m);
        assert(meshlets@ =~= Seq::new((i + 1) as nat, |k: int| meshlet_of(clusters@, k)));
        i += 1;
    }
    assert(clusters@.take(clusters@.len() as int) =~= clusters@);
    let level = MeshLevel::new(vertices, meshlets, data);
    assert forall|k: int| 0 <= k < level.meshlets@.len() implies {
        &&& #[trigger] level.meshlets@[k].within_caps()
        &&& level.meshlets@[k].fits_in(level.meshlet_data@.len())
    } by {
        assert(cluster_valid(clusters@[k], n as nat));
        lemma_level_data_step(clusters@, k);
        lemma_level_data_prefix(clusters@, k + 1, clusters@.len() as int);
    }
    Ok(level)
}

/// Packing round trip: reading the triangle bytes of cluster `i` back out of
/// the level data, from its offset past its vertex indices, gives each of
/// its bytes, and zero in the lanes of its last word past its last byte.
pub proof fn lemma_packing_round_trip(cs: Seq<Cluster>, i: int, k: int)
    requires
        0 <= i < cs.len(),
        0 <= k < 4 * word_count(cs[i].triangles@.len()),
    ensures
        unpacked_byte(level_data(cs), (cluster_offset(cs, i) + cs[i].vertices@.len()) as int, k) == (if k
            < cs[i].triangles@.len() {
            cs[i].triangles@[k]
        } else {
            0u8
        }),
{
    let c = cs[i];
    let t = c.triangles@;
    let m = c.vertices@.len() + k / 4;
    lemma_cluster_in_level_data(cs, i, m);
    assert(cluster_words(c)[m] == packed_triangles(t)[k / 4]);
    lemma_unpack_packed(t, k);
}

/// Reads the triangle bytes of meshlet `m` of a level back out of its data.
pub fn unpack_triangles(level: &MeshLevel, m: usize) -> (r: Vec<u8>)
    requires
        level.wf(),
        m < level.meshlets@.len(),
    ensures
        r@.len() == 3 * level.meshlets@[m as int].triangle_count,
        forall|k: int|
            0 <= k < r@.len() ==> #[trigger] r@[k] == unpacked_byte(
                level.meshlet_data@,
                (level.meshlets@[m as int].data_offset + level.meshlets@[m as int].vertex_count) as int,
                k,
            ),
{
    let ml = level.meshlets[m];
    assert(level.meshlets@[m as int].within_caps());
    assert(ml.fits_in(level.meshlet_data@.len()));
    let dl = level.meshlet_data.len();
    let start: usize = (ml.data_offset as usize) + (ml.vertex_count as usize);
    let n: usize = 3 * (ml.triangle_count as usize);
    let mut out: Vec<u8> = Vec::new();
    let mut k: usize = 0;
    while k < n
        invariant
            m < level.meshlets@.len(),
            ml == level.meshlets@[m as int],
            dl == level.meshlet_data@.len(),
            ml.within_caps(),
            ml.fits_in(level.meshlet_data@.len()),
            start == ml.data_offset + ml.vertex_count,
            n == 3 * ml.triangle_count,
            k <= n,
            out@.len() == k,
            forall|kk: int|
                0 <= kk < k ==> #[trigger] out@[kk] == unpacked_byte(level.meshlet_data@, start as int, kk),
        decreases n - k,
    {
        assert(k / 4 < (3 * ml.triangle_count + 3) / 4);
        let w = level.meshlet_data[start + k / 4];
        let l = k % 4;
        let b: u8 = if l == 0 {
            #[verifier::truncate]
            ((w >> 24u32) as u8)
        } else if l == 1 {
            #[verifier::truncate]
            (((w >> 16u32) & 0xffu32) as u8)
        } else if l == 2 {
            #[verifier::truncate]
            (((w >> 8u32) & 0xffu32) as u8)
        } else {
            #[verifier::truncate]
            ((w & 0xffu32) as u8)
        };
        out.push(b);
        k += 1;
    }
    out
}

/// `level` is the packing of the clusters `cs` (what [`pack_level`] gives on
/// success, and what each level of a loaded mesh is).
pub open spec fn packed_from(level: MeshLevel, cs: Seq<Cluster>) -> bool {
    &&& level.meshlets@ == Seq::new(cs.len(), |i: int| meshlet_of(cs, i))
    &&& level.meshlet_data@ == level_data(cs)
    &&& level_data(cs).len() <= u32::MAX
    &&& all_clusters_valid(cs, level.vertices@.len())
}

/// In a packed level, meshlet `m` records cluster `m`: its offset, its
/// vertex count and its triangle count; its vertex entries are the
/// cluster's vertices; and unpacking its triangle words gives the cluster's
/// triangle bytes back, with zero in the lanes past the last one.
pub proof fn lemma_level_round_trip(level: MeshLevel, cs: Seq<Cluster>, m: int, k: int)
    requires
        packed_from(level, cs),
        0 <= m < cs.len(),
        0 <= k < 4 * word_count(cs[m].triangles@.len()),
    ensures
        level.meshlets@[m].data_offset as nat == cluster_offset(cs, m),
        level.meshlets@[m].vertex_count as nat == cs[m].vertices@.len(),
        level.meshlets@[m].triangle_count as nat == cs[m].triangles@.len() / 3,
        forall|j: int|
            0 <= j < cs[m].vertices@.len() ==> level.meshlet_data@[cluster_offset(cs, m) + j]
                == #[trigger] cs[m].vertices@[j],
        unpacked_byte(
            level.meshlet_data@,
            (level.meshlets@[m].data_offset + level.meshlets@[m].vertex_count) as int,
            k,
        ) == (if k < cs[m].triangles@.len() {
            cs[m].triangles@[k]
        } else {
            0u8
        }),
{
    lemma_level_data_step(cs, m);
    lemma_level_data_prefix(cs, m + 1, cs.len() as int);
    assert(cs.take(cs.len() as int) =~= cs);
    let c = cs[m];
    assert(cluster_valid(cs[m], level.vertices@.len()));
    let mm = c.vertices@.len() + k / 4;
    lemma_cluster_in_level_data(cs, m, mm as int);
    assert(c.vertices@.len() <= level_data(cs).len());
    assert forall|j: int| 0 <= j < cs[m].vertices@.len() implies level.meshlet_data@[cluster_offset(cs, m)
        + j] == #[trigger] cs[m].vertices@[j] by {
        lemma_cluster_in_level_data(cs, m, j);
    }
    lemma_packing_round_trip(cs, m, k);
}

} // verus!
