use meshlet_renderer::loader::{deduplicate, expand_corners, prepare_mesh, reorder_for_fetch, CornerIndex};
use meshlet_renderer::mesh::{Mesh, MeshError, Vertex};

fn vertex(p: [f32; 3], t: [f32; 2], n: [f32; 3]) -> Vertex {
    Vertex::new(
        [p[0].to_bits(), p[1].to_bits(), p[2].to_bits()],
        [t[0].to_bits(), t[1].to_bits()],
        [n[0].to_bits(), n[1].to_bits(), n[2].to_bits()],
    )
}

fn bits(values: &[f32]) -> Vec<u32> {
    values.iter().map(|v| v.to_bits()).collect()
}

fn corner(p: u32, t: u32, n: u32) -> CornerIndex {
    CornerIndex { position: p, tex_coord: t, normal: n }
}

#[test]
fn expand_gathers_each_attribute() {
    let positions = bits(&[0.0, 1.0, 2.0, 3.0, 4.0, 5.0]);
    let tex = bits(&[0.5, 0.25, 0.75, 1.0]);
    let normals = bits(&[0.0, 0.0, 1.0]);
    let corners = vec![corner(1, 0, 0), corner(0, 1, 0), corner(1, 1, 0)];
    let out = expand_corners(&positions, &tex, &normals, &corners).unwrap();
    assert_eq!(out.len(), 3);
    assert_eq!(out[0], vertex([3.0, 4.0, 5.0], [0.5, 0.25], [0.0, 0.0, 1.0]));
    assert_eq!(out[1], vertex([0.0, 1.0, 2.0], [0.75, 1.0], [0.0, 0.0, 1.0]));
    assert_eq!(out[2], vertex([3.0, 4.0, 5.0], [0.75, 1.0], [0.0, 0.0, 1.0]));
}

#[test]
fn expand_rejects_first_bad_corner() {
    let positions = bits(&[0.0, 1.0, 2.0]);
    let tex = bits(&[0.0, 0.0]);
    let normals = bits(&[0.0, 0.0, 1.0]);
    let corners = vec![corner(0, 0, 0), corner(0, 1, 0), corner(1, 0, 0)];
    assert_eq!(expand_corners(&positions, &tex, &normals, &corners), Err(MeshError::IndexOutOfRange(1)));
    let corners = vec![corner(0, 0, 0), corner(0, 0, 0), corner(0, 0, 3)];
    assert_eq!(expand_corners(&positions, &tex, &normals, &corners), Err(MeshError::IndexOutOfRange(2)));
}

#[test]
fn dedup_reexpands_to_the_corners() {
    let a = vertex([0.0, 0.0, 0.0], [0.0, 0.0], [0.0, 1.0, 0.0]);
    let b = vertex([1.0, 0.0, 0.0], [1.0, 0.0], [0.0, 1.0, 0.0]);
    let c = vertex([0.0, 1.0, 0.0], [0.0, 1.0], [0.0, 1.0, 0.0]);
    let d = vertex([1.0, 1.0, 0.0], [1.0, 1.0], [0.0, 1.0, 0.0]);
    let corners = vec![a, b, c, c, b, d];
    let (unique, indices) = deduplicate(&corners);
    assert_eq!(unique, vec![a, b, c, d]);
    assert_eq!(indices, vec![0, 1, 2, 2, 1, 3]);
    for (i, idx) in indices.iter().enumerate() {
        assert_eq!(unique[*idx as usize], corners[i]);
    }
}

#[test]
fn dedup_compares_bits_not_values() {
    let plus = vertex([0.0, 0.0, 0.0], [0.0, 0.0], [0.0, 0.0, 1.0]);
    let minus = vertex([-0.0, 0.0, 0.0], [0.0, 0.0], [0.0, 0.0, 1.0]);
    let corners = vec![plus, minus, plus];
    let (unique, indices) = deduplicate(&corners);
    assert_eq!(unique.len(), 2);
    assert_eq!(indices, vec![0, 1, 0]);
}

#[test]
fn dedup_of_nothing_is_empty() {
    let (unique, indices) = deduplicate(&Vec::new());
    assert!(unique.is_empty());
    assert!(indices.is_empty());
}

#[test]
fn prepare_rejects_partial_triangles() {
    let positions = bits(&[0.0, 1.0, 2.0]);
    let tex = bits(&[0.0, 0.0]);
    let normals = bits(&[0.0, 0.0, 1.0]);
    let corners = vec![corner(0, 0, 0), corner(0, 0, 0)];
    assert_eq!(prepare_mesh(&positions, &tex, &normals, &corners).unwrap_err(), MeshError::NotTriangles);
    let corners = vec![corner(0, 0, 0), corner(0, 0, 0), corner(0, 0, 9)];
    assert_eq!(
        prepare_mesh(&positions, &tex, &normals, &corners).unwrap_err(),
        MeshError::IndexOutOfRange(2)
    );
}

fn grid_input(n: u32) -> (Vec<u32>, Vec<u32>, Vec<u32>, Vec<CornerIndex>) {
    let mut positions = Vec::new();
    for y in 0..=n {
        for x in 0..=n {
            positions.extend_from_slice(&[(x as f32).to_bits(), (y as f32).to_bits(), 0u32]);
        }
    }
    let mut corners = Vec::new();
    // Cells visited column by column, so that the input order jumps around.
    for x in 0..n {
        for y in 0..n {
            let i = y * (n + 1) + x;
            for p in [i, i + 1, i + n + 1, i + n + 1, i + 1, i + n + 2] {
                corners.push(corner(p, 0, 0));
            }
        }
    }
    (positions, bits(&[0.0, 0.0]), bits(&[0.0, 0.0, 1.0]), corners)
}

fn sorted_triangles(vertices: &[Vertex], indices: &[u32]) -> Vec<[Vertex; 3]> {
    let mut tris: Vec<[Vertex; 3]> = indices
        .chunks(3)
        .map(|t| [vertices[t[0] as usize], vertices[t[1] as usize], vertices[t[2] as usize]])
        .collect();
    tris.sort_by_key(|t| format!("{:?}", t));
    tris
}

#[test]
fn prepare_keeps_every_triangle_and_orders_for_the_cache() {
    let (positions, tex, normals, corners) = grid_input(6);
    let expanded = expand_corners(&positions, &tex, &normals, &corners).unwrap();
    let (unique, dedup) = deduplicate(&expanded);
    let (vertices, indices) = prepare_mesh(&positions, &tex, &normals, &corners).unwrap();
    assert_eq!(vertices, unique);
    assert_eq!(vertices.len(), 49);
    assert_eq!(indices.len(), corners.len());
    let expected = meshopt::optimize_vertex_cache(&dedup, vertices.len());
    assert_eq!(indices, expected);
    assert_ne!(indices, dedup);
    let all: Vec<u32> = (0..expanded.len() as u32).collect();
    assert_eq!(sorted_triangles(&vertices, &indices), sorted_triangles(&expanded, &all));
}

#[test]
fn fetch_reorder_numbers_by_first_use() {
    let vs: Vec<Vertex> = (0..5).map(|i| vertex([i as f32, 0.0, 0.0], [0.0, 0.0], [0.0, 0.0, 1.0])).collect();
    let mut indices = vec![3, 1, 4, 4, 1, 3];
    let out = reorder_for_fetch(&mut indices, &vs).unwrap();
    assert_eq!(indices, vec![0, 1, 2, 2, 1, 0]);
    assert_eq!(out, vec![vs[3], vs[1], vs[4]]);
}

#[test]
fn fetch_reorder_rejects_bad_indices() {
    let vs: Vec<Vertex> = (0..3).map(|i| vertex([i as f32, 0.0, 0.0], [0.0, 0.0], [0.0, 0.0, 1.0])).collect();
    let mut indices = vec![0, 1, 3, 2, 1, 0];
    assert_eq!(reorder_for_fetch(&mut indices, &vs).unwrap_err(), MeshError::IndexOutOfRange(2));
    assert_eq!(indices, vec![0, 1, 3, 2, 1, 0]);
    let mut indices = vec![0, 1];
    assert_eq!(reorder_for_fetch(&mut indices, &vs).unwrap_err(), MeshError::NotTriangles);
}

#[test]
fn mesh_needs_a_level() {
    assert_eq!(Mesh::from_levels(Vec::new()).unwrap_err(), MeshError::NoLevels);
}

#[test]
fn prepare_of_no_corners_is_an_empty_mesh() {
    let (vertices, indices) = prepare_mesh(&Vec::new(), &Vec::new(), &Vec::new(), &Vec::new()).unwrap();
    assert!(vertices.is_empty());
    assert!(indices.is_empty());
}
