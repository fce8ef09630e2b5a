use meshlet_renderer::chain::build_lod_chain;
use meshlet_renderer::loader::{prepare_mesh, reorder_for_fetch, CornerIndex};
use meshlet_renderer::mesh::{MeshError, Vertex, MAX_TRIANGLES, MAX_VERTICES};
use meshlet_renderer::meshlet::Cluster;

fn position_bytes(vertices: &[Vertex]) -> Vec<u8> {
    vertices.iter().flat_map(|v| v.position).flat_map(|b| f32::from_bits(b).to_ne_bytes()).collect()
}

fn simplify(indices: &Vec<u32>, vertices: &Vec<Vertex>, target: usize) -> Vec<u32> {
    let bytes = position_bytes(vertices);
    let adapter = meshopt::VertexDataAdapter::new(&bytes, 12, 0).unwrap();
    meshopt::simplify_sloppy(indices, &adapter, target, 1e2, None)
}

fn cluster(indices: &Vec<u32>, vertices: &Vec<Vertex>) -> Vec<Cluster> {
    let bytes = position_bytes(vertices);
    let adapter = meshopt::VertexDataAdapter::new(&bytes, 12, 0).unwrap();
    let meshlets = meshopt::build_meshlets(indices, &adapter, MAX_VERTICES, MAX_TRIANGLES, 0.0);
    meshlets.iter().map(|m| Cluster::new(m.vertices.to_vec(), m.triangles.to_vec())).collect()
}

fn grid(n: u32) -> (Vec<Vertex>, Vec<u32>) {
    let mut positions = Vec::new();
    for y in 0..=n {
        for x in 0..=n {
            let h = ((x * 7 + y * 13) % 5) as f32 * 0.1;
            positions.extend_from_slice(&[(x as f32).to_bits(), (y as f32).to_bits(), h.to_bits()]);
        }
    }
    let mut corners = Vec::new();
    for y in 0..n {
        for x in 0..n {
            let i = y * (n + 1) + x;
            for p in [i, i + 1, i + n + 1, i + n + 1, i + 1, i + n + 2] {
                corners.push(CornerIndex { position: p, tex_coord: 0, normal: 0 });
            }
        }
    }
    let (vertices, mut indices) = prepare_mesh(&positions, &vec![0, 0], &vec![0, 0, 0], &corners).unwrap();
    let vertices = reorder_for_fetch(&mut indices, &vertices).unwrap();
    (vertices, indices)
}

#[test]
fn chain_has_the_requested_levels() {
    let (vertices, indices) = grid(40);
    let mesh = build_lod_chain(&vertices, &indices, 5, simplify, cluster).unwrap();
    assert_eq!(mesh.levels.len(), 5);
    assert_eq!(mesh.levels[0].vertices, vertices);
    let triangles: u32 = mesh.levels[0].meshlets.iter().map(|m| m.triangle_count).sum();
    assert_eq!(triangles as usize, indices.len() / 3);
    for level in &mesh.levels {
        for m in &level.meshlets {
            assert!(m.vertex_count <= 64 && m.triangle_count <= 124 && m.triangle_count >= 1);
        }
        for v in &level.vertices {
            assert!(vertices.contains(v));
        }
    }
}

#[test]
fn coarser_levels_have_no_more_meshlets() {
    let (vertices, indices) = grid(40);
    let mesh = build_lod_chain(&vertices, &indices, 4, simplify, cluster).unwrap();
    let counts: Vec<usize> = mesh.levels.iter().map(|l| l.meshlets.len()).collect();
    for pair in counts.windows(2) {
        assert!(pair[0] >= pair[1], "meshlet counts {counts:?}");
    }
    assert!(counts[0] > counts[3], "meshlet counts {counts:?}");
}

#[test]
fn one_level_is_the_mesh_as_given() {
    let (vertices, indices) = grid(3);
    let mesh = build_lod_chain(&vertices, &indices, 1, simplify, cluster).unwrap();
    assert_eq!(mesh.levels.len(), 1);
    assert_eq!(mesh.levels[0].meshlets.len(), 1);
    assert_eq!(mesh.levels[0].meshlets[0].triangle_count, 18);
    assert_eq!(mesh.levels[0].meshlets[0].vertex_count, 16);
}

#[test]
fn chain_of_no_levels_is_refused() {
    let (vertices, indices) = grid(2);
    assert_eq!(build_lod_chain(&vertices, &indices, 0, simplify, cluster).unwrap_err(), MeshError::NoLevels);
}

#[test]
fn chain_checks_what_the_simplifier_returns() {
    let (vertices, indices) = grid(2);
    let bad = |_: &Vec<u32>, v: &Vec<Vertex>, _: usize| vec![0, 1, v.len() as u32];
    assert_eq!(build_lod_chain(&vertices, &indices, 2, bad, cluster).unwrap_err(), MeshError::IndexOutOfRange(2));
    let partial = |_: &Vec<u32>, _: &Vec<Vertex>, _: usize| vec![0, 1];
    assert_eq!(build_lod_chain(&vertices, &indices, 2, partial, cluster).unwrap_err(), MeshError::NotTriangles);
}

#[test]
fn chain_checks_what_the_clusteriser_returns() {
    let (vertices, indices) = grid(2);
    let oversized = |_: &Vec<u32>, _: &Vec<Vertex>| vec![Cluster::new((0..65).collect(), vec![0; 24])];
    assert_eq!(
        build_lod_chain(&vertices, &indices, 1, simplify, oversized).unwrap_err(),
        MeshError::ClusterOverCaps(0)
    );
}

#[test]
fn chain_checks_the_clusters_hold_every_triangle() {
    let (vertices, indices) = grid(2);
    assert_eq!(indices.len(), 24);
    let short = |i: &Vec<u32>, v: &Vec<Vertex>| {
        let mut cs = cluster(i, v);
        let n = cs[0].triangles.len();
        cs[0].triangles.truncate(n - 3);
        cs
    };
    assert_eq!(build_lod_chain(&vertices, &indices, 1, simplify, short).unwrap_err(), MeshError::ClusterTriangleCount);
}

#[test]
fn chain_checks_every_level_vertex_is_listed() {
    let (vertices, indices) = grid(2);
    let mut extra = vertices.clone();
    extra.push(Vertex::new([7, 7, 7], [0, 0], [0, 0, 0]));
    assert_eq!(
        build_lod_chain(&extra, &indices, 1, simplify, cluster).unwrap_err(),
        MeshError::UnusedLevelVertex(vertices.len())
    );
}

#[test]
fn chain_refuses_a_simplifier_that_grows_the_mesh() {
    let (vertices, indices) = grid(2);
    let grow = |i: &Vec<u32>, _: &Vec<Vertex>, _: usize| {
        let mut out = i.clone();
        out.extend_from_slice(&i[0..3]);
        out
    };
    assert_eq!(build_lod_chain(&vertices, &indices, 2, grow, cluster).unwrap_err(), MeshError::SimplificationGrew);
}

#[test]
fn chain_checks_the_clusters_hold_the_level_triangles() {
    let (vertices, indices) = grid(2);
    let rotated = |i: &Vec<u32>, v: &Vec<Vertex>| {
        let mut cs = cluster(i, v);
        let t = cs[0].triangles.clone();
        cs[0].triangles[0] = t[1];
        cs[0].triangles[1] = t[2];
        cs[0].triangles[2] = t[0];
        cs
    };
    assert_eq!(
        build_lod_chain(&vertices, &indices, 1, simplify, rotated).unwrap_err(),
        MeshError::ClusterTrianglesDiffer
    );
}
