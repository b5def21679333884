use voxworld::mesh::{build_chunk_mesh, MeshBuffers, NeighborEdges};
use voxworld::VoxelKind;

fn empty_voxels() -> Vec<VoxelKind> {
    vec![VoxelKind::Air; 4096]
}

fn index(x: usize, y: usize, z: usize) -> usize {
    y * 256 + z * 16 + x
}

#[test]
fn test_single_voxel_mesh_face_count() {
    // one solid non-water voxel surrounded by air: exactly 6 faces,
    // 12 triangles, 24 deduplicated vertices (one per position-normal-color key)
    let mut voxels = empty_voxels();
    voxels[index(8, 8, 8)] = VoxelKind::Stone;

    let mut buffers = MeshBuffers::new();
    let mesh = build_chunk_mesh(&voxels, &NeighborEdges::empty(), &mut buffers);

    assert_eq!(mesh.indices.len(), 36); // 6 faces of 2 triangles
    assert_eq!(mesh.vertices.len(), 24); // 4 corners per face, distinct normals

    // one vertex per distinct key
    for i in 0..mesh.vertices.len() {
        for j in (i + 1)..mesh.vertices.len() {
            assert_ne!(mesh.vertices[i], mesh.vertices[j]);
        }
    }
}

#[test]
fn test_water_face_suppression() {
    // two vertically adjacent water cells produce no face between them
    let mut voxels = empty_voxels();
    voxels[index(4, 4, 4)] = VoxelKind::Water;
    voxels[index(4, 5, 4)] = VoxelKind::Water;

    let mut buffers = MeshBuffers::new();
    let mesh = build_chunk_mesh(&voxels, &NeighborEdges::empty(), &mut buffers);

    // two stacked cells: 4 + 4 side faces, 1 top, 1 bottom = 10 faces;
    // with the shared face suppressed in both directions
    assert_eq!(mesh.indices.len(), 10 * 6);

    // no upward face of the lower cell at y = 5, and no downward face of
    // the upper cell at y = 5: no triangle lies entirely in the y = 5 plane
    for tri in mesh.indices.chunks(3) {
        let ys: Vec<i32> = tri
            .iter()
            .map(|&i| mesh.vertices[i as usize].y)
            .collect();
        assert!(!(ys[0] == 5 && ys[1] == 5 && ys[2] == 5));
    }
}

#[test]
fn test_empty_chunk_empty_mesh() {
    let voxels = empty_voxels();
    let mut buffers = MeshBuffers::new();
    let mesh = build_chunk_mesh(&voxels, &NeighborEdges::empty(), &mut buffers);
    assert!(mesh.is_empty());
    assert_eq!(mesh.vertices.len(), 0);
}

#[test]
fn test_buried_face_culled_against_neighbor_edge() {
    // a solid voxel at the +X border: its +X face is culled when the
    // neighbor chunk's boundary slice holds stone there
    let mut voxels = empty_voxels();
    voxels[index(15, 8, 8)] = VoxelKind::Stone;

    let mut buffers = MeshBuffers::new();
    let open_mesh = build_chunk_mesh(&voxels, &NeighborEdges::empty(), &mut buffers);
    assert_eq!(open_mesh.indices.len(), 36);

    let mut edges = NeighborEdges::empty();
    edges.pos_x = Some(vec![VoxelKind::Stone; 256]);
    let culled_mesh = build_chunk_mesh(&voxels, &edges, &mut buffers);
    assert_eq!(culled_mesh.indices.len(), 30); // one face fewer
}

#[test]
fn test_placeholder_mesh_outline() {
    let mesh = voxworld::mesh::create_placeholder_mesh();
    assert_eq!(mesh.vertices.len(), 24);
    assert_eq!(mesh.indices.len(), 24);
    for (k, &i) in mesh.indices.iter().enumerate() {
        assert_eq!(i as usize, k);
    }
    for v in &mesh.vertices {
        assert!(v.x == 0 || v.x == 16);
        assert!(v.y == 0 || v.y == 16);
        assert!(v.z == 0 || v.z == 16);
    }
}
