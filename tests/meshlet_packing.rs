use meshlet_renderer::loader::{prepare_mesh, reorder_for_fetch, CornerIndex};
use meshlet_renderer::mesh::{Mesh, MeshError, Meshlet, Vertex, MAX_TRIANGLES, MAX_VERTICES};
use meshlet_renderer::meshlet::{pack_level, unpack_triangles, Cluster};

fn plain_vertices(n: usize) -> Vec<Vertex> {
    (0..n).map(|i| Vertex::new([(i as f32).to_bits(), 0, 0], [0, 0], [0, 0, 0])).collect()
}

#[test]
fn packs_vertices_then_triangle_words() {
    let clusters = vec![Cluster::new(vec![7, 8, 9], vec![0, 1, 2])];
    let level = pack_level(plain_vertices(10), &clusters).unwrap();
    assert_eq!(level.meshlets, vec![Meshlet::new(0, 3, 1)]);
    assert_eq!(level.meshlet_data, vec![7, 8, 9, 0x0001_0200]);
}

#[test]
fn five_triangles_fill_four_words_with_zero_padding() {
    let tris: Vec<u8> = (0..15).collect();
    let clusters = vec![Cluster::new((0..15).collect(), tris.clone())];
    let level = pack_level(plain_vertices(15), &clusters).unwrap();
    let m = level.meshlets[0];
    assert_eq!(m, Meshlet::new(0, 15, 5));
    let words = &level.meshlet_data[15..];
    assert_eq!(words, &[0x0001_0203, 0x0405_0607, 0x0809_0a0b, 0x0c0d_0e00]);
    // Byte 12 (triangle 4's first corner) is the upper byte of the last word.
    assert_eq!(words[3] >> 24, 12);
    assert_eq!(words[3] & 0xff, 0);
    assert_eq!(unpack_triangles(&level, 0), tris);
}

#[test]
fn offsets_follow_the_data_of_earlier_meshlets() {
    let clusters = vec![
        Cluster::new(vec![0, 1, 2, 3], vec![0, 1, 2, 2, 1, 3]),
        Cluster::new(vec![4, 5, 6], vec![2, 1, 0]),
    ];
    let level = pack_level(plain_vertices(7), &clusters).unwrap();
    assert_eq!(level.meshlets, vec![Meshlet::new(0, 4, 2), Meshlet::new(6, 3, 1)]);
    assert_eq!(level.meshlet_data, vec![0, 1, 2, 3, 0x0001_0202, 0x0103_0000, 4, 5, 6, 0x0201_0000]);
    assert_eq!(unpack_triangles(&level, 0), vec![0, 1, 2, 2, 1, 3]);
    assert_eq!(unpack_triangles(&level, 1), vec![2, 1, 0]);
}

#[test]
fn empty_cluster_list_gives_an_empty_level() {
    let level = pack_level(plain_vertices(3), &Vec::new()).unwrap();
    assert!(level.meshlets.is_empty());
    assert!(level.meshlet_data.is_empty());
    assert_eq!(level.vertices.len(), 3);
}

#[test]
fn rejects_clusters_over_the_caps() {
    let too_many_vertices = Cluster::new((0..MAX_VERTICES as u32 + 1).collect(), vec![0, 1, 2]);
    assert_eq!(
        pack_level(plain_vertices(100), &vec![too_many_vertices]).unwrap_err(),
        MeshError::ClusterOverCaps(0)
    );
    let ok = Cluster::new(vec![0, 1, 2], vec![0, 1, 2]);
    let too_many_triangles = Cluster::new(vec![0, 1, 2], vec![0; 3 * (MAX_TRIANGLES + 1)]);
    assert_eq!(
        pack_level(plain_vertices(3), &vec![ok.clone(), too_many_triangles]).unwrap_err(),
        MeshError::ClusterOverCaps(1)
    );
    let no_triangle = Cluster::new(vec![0], vec![]);
    assert_eq!(pack_level(plain_vertices(3), &vec![no_triangle]).unwrap_err(), MeshError::ClusterOverCaps(0));
    let partial = Cluster::new(vec![0, 1], vec![0, 1, 1, 0]);
    assert_eq!(pack_level(plain_vertices(3), &vec![partial]).unwrap_err(), MeshError::ClusterOverCaps(0));
}

#[test]
fn largest_cluster_is_accepted() {
    let tris: Vec<u8> = (0..3 * MAX_TRIANGLES).map(|k| (k % MAX_VERTICES) as u8).collect();
    let c = Cluster::new((0..MAX_VERTICES as u32).collect(), tris.clone());
    let level = pack_level(plain_vertices(MAX_VERTICES), &vec![c]).unwrap();
    assert_eq!(level.meshlets, vec![Meshlet::new(0, 64, 124)]);
    assert_eq!(level.meshlet_data.len(), 64 + 93);
    assert_eq!(unpack_triangles(&level, 0), tris);
}

#[test]
fn rejects_indices_that_name_nothing() {
    let bad_local = Cluster::new(vec![0, 1], vec![0, 1, 2]);
    assert_eq!(
        pack_level(plain_vertices(3), &vec![bad_local]).unwrap_err(),
        MeshError::ClusterIndexOutOfRange(0)
    );
    let ok = Cluster::new(vec![0, 1, 2], vec![0, 1, 2]);
    let bad_global = Cluster::new(vec![0, 1, 3], vec![0, 1, 2]);
    assert_eq!(
        pack_level(plain_vertices(3), &vec![ok, bad_global]).unwrap_err(),
        MeshError::ClusterIndexOutOfRange(1)
    );
}

#[test]
fn rejects_clusters_that_repeat_a_vertex() {
    let repeated = Cluster::new(vec![0, 1, 1], vec![0, 1, 2]);
    assert_eq!(pack_level(plain_vertices(3), &vec![repeated]).unwrap_err(), MeshError::ClusterRepeatsVertex(0));
}

fn clusters_of(indices: &[u32], vertices: &[Vertex]) -> Vec<Cluster> {
    let positions: Vec<f32> = vertices
        .iter()
        .flat_map(|v| v.position.iter().map(|b| f32::from_bits(*b)).collect::<Vec<f32>>())
        .collect();
    let bytes: Vec<u8> = positions.iter().flat_map(|p| p.to_ne_bytes()).collect();
    let adapter = meshopt::VertexDataAdapter::new(&bytes, 12, 0).unwrap();
    let meshlets = meshopt::build_meshlets(indices, &adapter, MAX_VERTICES, MAX_TRIANGLES, 0.0);
    meshlets.iter().map(|m| Cluster::new(m.vertices.to_vec(), m.triangles.to_vec())).collect()
}

#[test]
fn cube_gives_one_level_with_one_meshlet() {
    let mut positions = Vec::new();
    for z in [0.0f32, 1.0] {
        for y in [0.0f32, 1.0] {
            for x in [0.0f32, 1.0] {
                positions.extend_from_slice(&[x.to_bits(), y.to_bits(), z.to_bits()]);
            }
        }
    }
    let faces: [[u32; 4]; 6] = [[0, 1, 3, 2], [4, 6, 7, 5], [0, 4, 5, 1], [2, 3, 7, 6], [0, 2, 6, 4], [1, 5, 7, 3]];
    let mut corners = Vec::new();
    for f in faces {
        for p in [f[0], f[1], f[2], f[0], f[2], f[3]] {
            corners.push(CornerIndex { position: p, tex_coord: 0, normal: 0 });
        }
    }
    let tex = vec![0u32, 0];
    let normals = vec![0u32, 0, 0];
    let (vertices, mut indices) = prepare_mesh(&positions, &tex, &normals, &corners).unwrap();
    assert_eq!(vertices.len(), 8);
    assert_eq!(indices.len(), 36);
    let vertices = reorder_for_fetch(&mut indices, &vertices).unwrap();
    let clusters = clusters_of(&indices, &vertices);
    let level = pack_level(vertices, &clusters).unwrap();
    let mesh = Mesh::from_levels(vec![level]).unwrap();
    assert_eq!(mesh.levels.len(), 1);
    assert_eq!(mesh.levels[0].meshlets, vec![Meshlet::new(0, 8, 12)]);
    assert_eq!(mesh.levels[0].meshlet_data.len(), 8 + 9);
}

fn position_bytes(vertices: &[Vertex]) -> Vec<u8> {
    vertices.iter().flat_map(|v| v.position).flat_map(|b| f32::from_bits(b).to_ne_bytes()).collect()
}

#[test]
fn cube_loads_through_the_whole_pipeline() {
    let mut positions = Vec::new();
    for z in [0.0f32, 1.0] {
        for y in [0.0f32, 1.0] {
            for x in [0.0f32, 1.0] {
                positions.extend_from_slice(&[x.to_bits(), y.to_bits(), z.to_bits()]);
            }
        }
    }
    let faces: [[u32; 4]; 6] = [[0, 1, 3, 2], [4, 6, 7, 5], [0, 4, 5, 1], [2, 3, 7, 6], [0, 2, 6, 4], [1, 5, 7, 3]];
    let mut corners = Vec::new();
    for f in faces {
        for p in [f[0], f[1], f[2], f[0], f[2], f[3]] {
            corners.push(CornerIndex { position: p, tex_coord: 0, normal: 0 });
        }
    }
    let overdraw = |indices: &Vec<u32>, vertices: &Vec<Vertex>| {
        let bytes = position_bytes(vertices);
        let adapter = meshopt::VertexDataAdapter::new(&bytes, 12, 0).unwrap();
        let mut ordered = indices.clone();
        meshopt::optimize_overdraw_in_place(&mut ordered, &adapter, 1.01);
        ordered
    };
    let simplify = |indices: &Vec<u32>, vertices: &Vec<Vertex>, target: usize| {
        let bytes = position_bytes(vertices);
        let adapter = meshopt::VertexDataAdapter::new(&bytes, 12, 0).unwrap();
        meshopt::simplify_sloppy(indices, &adapter, target, 1e2, None)
    };
    let cluster = |indices: &Vec<u32>, vertices: &Vec<Vertex>| clusters_of(indices, vertices);
    let mesh =
        Mesh::new(&positions, &vec![0, 0], &vec![0, 0, 0], &corners, 1, overdraw, simplify, cluster).unwrap();
    assert_eq!(mesh.levels.len(), 1);
    assert_eq!(mesh.levels[0].vertices.len(), 8);
    assert_eq!(mesh.levels[0].meshlets, vec![Meshlet::new(0, 8, 12)]);
    assert_eq!(mesh.levels[0].meshlet_data.len(), 8 + 9);

    let bad = vec![CornerIndex { position: 8, tex_coord: 0, normal: 0 }; 3];
    let err = Mesh::new(&positions, &vec![0, 0], &vec![0, 0, 0], &bad, 1, overdraw, simplify, cluster).unwrap_err();
    assert_eq!(err, MeshError::IndexOutOfRange(0));
    let flipped = |indices: &Vec<u32>, _: &Vec<Vertex>| {
        let mut out = indices.clone();
        out.swap(0, 1);
        out
    };
    let err = Mesh::new(&positions, &vec![0, 0], &vec![0, 0, 0], &corners, 1, flipped, simplify, cluster).unwrap_err();
    assert_eq!(err, MeshError::OverdrawChangedTriangles);
    let none = Mesh::new(&positions, &vec![0, 0], &vec![0, 0, 0], &corners, 0, overdraw, simplify, cluster).unwrap_err();
    assert_eq!(none, MeshError::NoLevels);
}
