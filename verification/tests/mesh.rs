use mesh2splat::mesh::{
    mesh_from_primitives, primitives_fit_u32, Mesh, MeshError, Primitive, Vertex, DEFAULT_NORMAL,
    DEFAULT_UV,
};

fn p3(x: f32, y: f32, z: f32) -> [u32; 3] {
    [x.to_bits(), y.to_bits(), z.to_bits()]
}

fn triangle(positions: Vec<[u32; 3]>, indices: Vec<u32>) -> Primitive {
    Primitive { positions: Some(positions), normals: None, uvs: None, indices: Some(indices) }
}

#[test]
fn default_normal_and_uv_are_up_and_zero() {
    assert_eq!(DEFAULT_NORMAL, p3(0.0, 1.0, 0.0));
    assert_eq!(DEFAULT_UV, [0.0f32.to_bits(), 0.0f32.to_bits()]);
}

#[test]
fn primitives_are_flattened_with_shifted_indices() {
    let a = triangle(vec![p3(0.0, 0.0, 0.0), p3(1.0, 0.0, 0.0), p3(0.0, 1.0, 0.0)], vec![0, 1, 2]);
    let b = Primitive {
        positions: Some(vec![p3(2.0, 0.0, 0.0), p3(3.0, 0.0, 0.0), p3(2.0, 1.0, 0.0)]),
        normals: Some(vec![p3(0.0, 0.0, 1.0), p3(0.0, 0.0, 1.0), p3(0.0, 0.0, 1.0)]),
        uvs: Some(vec![[0.5f32.to_bits(), 0.5f32.to_bits()]; 3]),
        indices: Some(vec![2, 1, 0]),
    };
    let ps = vec![a, b];
    assert!(primitives_fit_u32(&ps));
    let mesh = mesh_from_primitives(&ps).unwrap();
    assert_eq!(mesh.vertices.len(), 6);
    assert_eq!(mesh.indices, vec![0, 1, 2, 5, 4, 3]);
    assert_eq!(mesh.vertices[0], Vertex { position: p3(0.0, 0.0, 0.0), normal: DEFAULT_NORMAL, uv: DEFAULT_UV });
    assert_eq!(mesh.vertices[4].position, p3(3.0, 0.0, 0.0));
    assert_eq!(mesh.vertices[4].normal, p3(0.0, 0.0, 1.0));
    assert_eq!(mesh.vertices[4].uv, [0.5f32.to_bits(), 0.5f32.to_bits()]);
}

#[test]
fn short_attribute_lists_fall_back_to_defaults() {
    let p = Primitive {
        positions: Some(vec![p3(0.0, 0.0, 0.0), p3(1.0, 0.0, 0.0), p3(0.0, 1.0, 0.0)]),
        normals: Some(vec![p3(1.0, 0.0, 0.0)]),
        uvs: Some(vec![[1, 2], [3, 4]]),
        indices: Some(vec![0, 1, 2]),
    };
    let mesh = mesh_from_primitives(&[p]).unwrap();
    assert_eq!(mesh.vertices[0].normal, p3(1.0, 0.0, 0.0));
    assert_eq!(mesh.vertices[1].normal, DEFAULT_NORMAL);
    assert_eq!(mesh.vertices[2].normal, DEFAULT_NORMAL);
    assert_eq!(mesh.vertices[1].uv, [3, 4]);
    assert_eq!(mesh.vertices[2].uv, DEFAULT_UV);
}

#[test]
fn missing_positions_is_an_error() {
    let p = Primitive { positions: None, normals: None, uvs: None, indices: Some(vec![0]) };
    assert_eq!(mesh_from_primitives(&[p]).unwrap_err(), MeshError::MissingPositions);
}

#[test]
fn missing_indices_is_an_error() {
    let p = Primitive { positions: Some(vec![p3(0.0, 0.0, 0.0)]), normals: None, uvs: None, indices: None };
    assert_eq!(mesh_from_primitives(&[p]).unwrap_err(), MeshError::MissingIndices);
}

#[test]
fn the_first_faulty_primitive_decides_the_error() {
    let no_indices = Primitive { positions: Some(vec![p3(0.0, 0.0, 0.0)]), normals: None, uvs: None, indices: None };
    let no_positions = Primitive { positions: None, normals: None, uvs: None, indices: Some(vec![0]) };
    let good = triangle(vec![p3(0.0, 0.0, 0.0)], vec![0, 0, 0]);
    assert_eq!(
        mesh_from_primitives(&[good.clone(), no_indices.clone(), no_positions.clone()]).unwrap_err(),
        MeshError::MissingIndices
    );
    assert_eq!(
        mesh_from_primitives(&[no_positions, no_indices]).unwrap_err(),
        MeshError::MissingPositions
    );
}

#[test]
fn no_primitives_means_no_vertices() {
    assert_eq!(mesh_from_primitives(&[]).unwrap_err(), MeshError::NoVertices);
}

#[test]
fn empty_index_lists_mean_no_indices() {
    let p = triangle(vec![p3(0.0, 0.0, 0.0)], vec![]);
    assert_eq!(mesh_from_primitives(&[p]).unwrap_err(), MeshError::NoIndices);
}

#[test]
fn vertices_without_positions_count_as_none() {
    let p = triangle(vec![], vec![0, 1, 2]);
    assert_eq!(mesh_from_primitives(&[p]).unwrap_err(), MeshError::NoVertices);
}

#[test]
fn shifted_indices_must_fit_in_u32() {
    let a = triangle(vec![p3(0.0, 0.0, 0.0)], vec![0]);
    let b = triangle(vec![p3(1.0, 0.0, 0.0)], vec![u32::MAX]);
    assert!(!primitives_fit_u32(&[a.clone(), b.clone()]));
    assert!(primitives_fit_u32(&[b.clone(), a.clone()]));
    // After a primitive that lacks its indices nothing is appended any more.
    let broken = Primitive { positions: Some(vec![p3(0.0, 0.0, 0.0)]), normals: None, uvs: None, indices: None };
    assert!(primitives_fit_u32(&[a, broken, b]));
}

#[test]
fn default_mesh_is_empty() {
    let m = Mesh::default();
    assert!(m.vertices.is_empty());
    assert!(m.indices.is_empty());
}
