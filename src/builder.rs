//! Building small meshes from quads.
use crate::mesh::Vertex;
use vstd::prelude::*;

verus! {

/// A growing vertex list and triangle index list.
#[derive(Clone, Debug)]
pub struct MeshBuilder {
    vertices: Vec<Vertex>,
    indices: Vec<u32>,
}

/// The six indices of a quad whose four corners start at `base`: the
/// triangles `(0, 1, 3)` and `(3, 1, 2)`.
pub open spec fn quad_indices(base: u32) -> Seq<u32> {
    seq![base, (base + 1) as u32, (base + 3) as u32, (base + 3) as u32, (base + 1) as u32, (base + 2) as u32]
}

impl MeshBuilder {
    pub closed spec fn vertices(&self) -> Seq<Vertex> {
        self.vertices@
    }

    pub closed spec fn indices(&self) -> Seq<u32> {
        self.indices@
    }

    pub fn new() -> (r: Self)
        ensures
            r.vertices() == Seq::<Vertex>::empty(),
            r.indices() == Seq::<u32>::empty(),
    {
        MeshBuilder { vertices: Vec::new(), indices: Vec::new() }
    }

    /// Number of vertices so far.
    pub fn vertex_count(&self) -> (r: usize)
        ensures
            r == self.vertices().len(),
    {
        self.vertices.len()
    }

    /// Appends a quad of four corners, in order around it, as two
    /// triangles.
    pub fn add_quad(&mut self, v0: &Vertex, v1: &Vertex, v2: &Vertex, v3: &Vertex)
        requires
            old(self).vertices().len() + 3 <= u32::MAX,
        ensures
            final(self).vertices() == old(self).vertices() + seq![*v0, *v1, *v2, *v3],
            final(self).indices() == old(self).indices() + quad_indices(
                old(self).vertices().len() as u32,
            ),
    {
        let base = self.vertices.len() as u32;
        self.vertices.push(*v0);
        self.vertices.push(*v1);
        self.vertices.push(*v2);
        self.vertices.push(*v3);
        self.indices.push(base);
        self.indices.push(base + 1);
        self.indices.push(base + 3);
        self.indices.push(base + 3);
        self.indices.push(base + 1);
        self.indices.push(base + 2);
        assert(self.vertices@ =~= old(self).vertices@ + seq![*v0, *v1, *v2, *v3]);
        assert(self.indices@ =~= old(self).indices@ + quad_indices(base));
    }

    /// The vertices and indices built.
    pub fn build(self) -> (r: (Vec<Vertex>, Vec<u32>))
        ensures
            r.0@ == self.vertices(),
            r.1@ == self.indices(),
    {
        (self.vertices, self.indices)
    }
}

} // verus!
