use vstd::prelude::*;

verus! {

/// Largest number of distinct vertices in one meshlet.
pub const MAX_VERTICES: usize = 64;

/// Largest number of triangles in one meshlet.
pub const MAX_TRIANGLES: usize = 124;

/// One vertex: position, texture coordinate and normal, each component held
/// as the bit pattern of an `f32`. Two vertices are the same vertex exactly
/// when all eight components are bit-identical.
#[derive(Clone, Copy, Debug, Default, PartialEq, Eq)]
pub struct Vertex {
    pub position: [u32; 3],
    pub tex_coord: [u32; 2],
    pub normal: [u32; 3],
}

impl Vertex {
    pub fn new(position: [u32; 3], tex_coord: [u32; 2], normal: [u32; 3]) -> (r: Self)
        ensures
            r.position == position,
            r.tex_coord == tex_coord,
            r.normal == normal,
    {
        Vertex { position, tex_coord, normal }
    }
}

/// One meshlet as the GPU reads it: where its words start in the level's
/// meshlet data, and how many vertices and triangles it has.
#[derive(Clone, Copy, Debug, Default, PartialEq, Eq)]
pub struct Meshlet {
    pub data_offset: u32,
    pub vertex_count: u32,
    pub triangle_count: u32,
}

impl Meshlet {
    pub fn new(data_offset: u32, vertex_count: u32, triangle_count: u32) -> (r: Self)
        ensures
            r.data_offset == data_offset,
            r.vertex_count == vertex_count,
            r.triangle_count == triangle_count,
    {
        Meshlet { data_offset, vertex_count, triangle_count }
    }

    /// Number of `u32` words that the packed triangle bytes take.
    pub open spec fn packed_word_count(self) -> nat {
        ((self.triangle_count as nat) * 3 + 3) / 4
    }

    /// The meshlet keeps to the caps and is not empty.
    pub open spec fn within_caps(self) -> bool {
        &&& self.vertex_count <= MAX_VERTICES
        &&& 1 <= self.triangle_count <= MAX_TRIANGLES
    }

    /// The meshlet's words lie inside a data array of `len` words.
    pub open spec fn fits_in(self, len: nat) -> bool {
        self.data_offset + self.vertex_count + self.packed_word_count() <= len
    }
}

/// One level of detail: its vertices, its meshlets and the packed data that
/// the meshlets index.
#[derive(Clone, Debug, Default)]
pub struct MeshLevel {
    pub vertices: Vec<Vertex>,
    pub meshlets: Vec<Meshlet>,
    pub meshlet_data: Vec<u32>,
}

impl MeshLevel {
    pub fn new(vertices: Vec<Vertex>, meshlets: Vec<Meshlet>, meshlet_data: Vec<u32>) -> (r: Self)
        ensures
            r.vertices@ == vertices@,
            r.meshlets@ == meshlets@,
            r.meshlet_data@ == meshlet_data@,
    {
        MeshLevel { vertices, meshlets, meshlet_data }
    }

    /// Every meshlet keeps to the caps and lies inside the meshlet data.
    pub open spec fn wf(&self) -> bool {
        forall|i: int|
            0 <= i < self.meshlets@.len() ==> {
                &&& #[trigger] self.meshlets@[i].within_caps()
                &&& self.meshlets@[i].fits_in(self.meshlet_data@.len())
            }
    }
}

/// A mesh: its levels of detail, finest first.
#[derive(Clone, Debug, Default)]
pub struct Mesh {
    pub levels: Vec<MeshLevel>,
}

/// Why a mesh could not be prepared.
#[derive(Clone, Copy, Debug, PartialEq, Eq)]
pub enum MeshError {
    /// The corner at this position names an attribute outside its array.
    IndexOutOfRange(usize),
    /// The number of corners is not a multiple of three.
    NotTriangles,
    /// The mesh has more corners than 32-bit indices can address.
    TooManyCorners,
    /// The mesh has more vertices than 32-bit indices can address.
    TooManyVertices,
    /// The cluster at this position has more vertices or triangles than the
    /// caps allow, or no triangle.
    ClusterOverCaps(usize),
    /// The cluster at this position names a vertex it does not have, or a
    /// level vertex that does not exist.
    ClusterIndexOutOfRange(usize),
    /// The cluster at this position lists one level vertex twice.
    ClusterRepeatsVertex(usize),
    /// The clusters of a level do not hold as many triangles as its index
    /// list.
    ClusterTriangleCount,
    /// The clusters of a level do not hold the level's triangles.
    ClusterTrianglesDiffer,
    /// The overdraw pass handed back other triangles than it was given.
    OverdrawChangedTriangles,
    /// No cluster of a level uses this level vertex.
    UnusedLevelVertex(usize),
    /// The simplifier handed back more indices than it was given.
    SimplificationGrew,
    /// The packed meshlet data would not be addressable with 32-bit offsets.
    MeshletDataTooLarge,
    /// A mesh needs at least one level.
    NoLevels,
}

impl Mesh {
    /// Makes a mesh of the given levels, finest first.
    pub fn from_levels(levels: Vec<MeshLevel>) -> (r: Result<Self, MeshError>)
        ensures
            levels@.len() == 0 ==> r == Err::<Self, MeshError>(MeshError::NoLevels),
            levels@.len() > 0 ==> r is Ok && r->Ok_0.levels@ == levels@,
    {
        if levels.len() == 0 {
            Err(MeshError::NoLevels)
        } else {
            Ok(Mesh { levels })
        }
    }

    pub open spec fn wf(&self) -> bool {
        &&& self.levels@.len() >= 1
        &&& forall|i: int| 0 <= i < self.levels@.len() ==> (#[trigger] self.levels@[i]).wf()
    }
}

/// Meshlet bounds: in a well-formed mesh every meshlet of every level has at
/// most 64 vertices and between 1 and 124 triangles, and lies inside its
/// level's data.
pub proof fn lemma_meshlet_bounds(mesh: Mesh, l: int, m: int)
    requires
        mesh.wf(),
        0 <= l < mesh.levels@.len(),
        0 <= m < mesh.levels@[l].meshlets@.len(),
    ensures
        mesh.levels@[l].meshlets@[m].vertex_count <= 64,
        1 <= mesh.levels@[l].meshlets@[m].triangle_count <= 124,
        mesh.levels@[l].meshlets@[m].fits_in(mesh.levels@[l].meshlet_data@.len()),
{
    assert(mesh.levels@[l].wf());
    assert(mesh.levels@[l].meshlets@[m].within_caps());
}

} // verus!
