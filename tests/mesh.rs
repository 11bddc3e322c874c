use engine::geometry::HandleState;
use engine::mesh::{decimal_string, sampler_name_for};
use engine::{DrawElements, GpuHandles, Mesh, ResourceError, Texture, TextureBinding, TextureKind, Vertex};

fn vertex(seed: u32) -> Vertex {
    Vertex { position: [seed; 3], normal: [seed + 1; 3], tex_coords: [seed + 2; 2] }
}

fn texture(id: u32, kind: TextureKind, path: &str) -> Texture {
    Texture { id, kind, path: path.to_string() }
}

fn handles() -> GpuHandles {
    GpuHandles { vertex_array: 3, vertex_buffer: 4, index_buffer: 5 }
}

#[test]
fn decimal_numbers() {
    assert_eq!(decimal_string(0), "0");
    assert_eq!(decimal_string(7), "7");
    assert_eq!(decimal_string(10), "10");
    assert_eq!(decimal_string(1203), "1203");
}

#[test]
fn sampler_name_joins_prefix_kind_and_number() {
    assert_eq!(sampler_name_for(TextureKind::Normal, 12), "material.texture_normal12");
}

#[test]
fn samplers_are_numbered_per_kind() {
    let mesh = Mesh::new(
        vec![vertex(0)],
        vec![0, 0, 0],
        vec![
            texture(1, TextureKind::Diffuse, "a.png"),
            texture(2, TextureKind::Diffuse, "b.png"),
            texture(3, TextureKind::Specular, "c.png"),
        ],
    )
    .unwrap();
    assert_eq!(
        mesh.sampler_names(),
        vec![
            "material.texture_diffuse1".to_string(),
            "material.texture_diffuse2".to_string(),
            "material.texture_specular1".to_string(),
        ]
    );
}

#[test]
fn kinds_count_independently_when_interleaved() {
    let mesh = Mesh::new(
        vec![vertex(0)],
        vec![0],
        vec![
            texture(1, TextureKind::Specular, "a.png"),
            texture(2, TextureKind::Diffuse, "b.png"),
            texture(3, TextureKind::Normal, "c.png"),
            texture(4, TextureKind::Specular, "d.png"),
            texture(5, TextureKind::Diffuse, "e.png"),
        ],
    )
    .unwrap();
    assert_eq!(
        mesh.sampler_names(),
        vec![
            "material.texture_specular1".to_string(),
            "material.texture_diffuse1".to_string(),
            "material.texture_normal1".to_string(),
            "material.texture_specular2".to_string(),
            "material.texture_diffuse2".to_string(),
        ]
    );
}

#[test]
fn mesh_draw_binds_textures_to_sequential_units() {
    let mut mesh = Mesh::new(
        vec![vertex(0), vertex(10)],
        vec![0, 1, 1],
        vec![texture(11, TextureKind::Diffuse, "a.png"), texture(12, TextureKind::Specular, "b.png")],
    )
    .unwrap();
    assert!(mesh.draw().is_none());
    mesh.attach(handles());
    let d = mesh.draw().unwrap();
    assert_eq!(
        d.bindings,
        vec![
            TextureBinding { unit: 0, sampler: "material.texture_diffuse1".to_string(), texture: 11 },
            TextureBinding { unit: 1, sampler: "material.texture_specular1".to_string(), texture: 12 },
        ]
    );
    assert_eq!(d.elements, DrawElements { vertex_array: 3, count: 3 });
}

#[test]
fn untextured_mesh_draws_without_bindings() {
    let mut mesh = Mesh::new(vec![vertex(0)], vec![0, 0, 0], Vec::new()).unwrap();
    mesh.attach(handles());
    let d = mesh.draw().unwrap();
    assert!(d.bindings.is_empty());
    assert_eq!(d.elements.count, 3);
}

#[test]
fn mesh_over_empty_vertices_fails() {
    let r = Mesh::new(Vec::new(), vec![0], vec![texture(1, TextureKind::Diffuse, "a.png")]);
    assert_eq!(r.err(), Some(ResourceError::GpuAllocationFailure));
}

#[test]
fn mesh_release_leaves_textures_alone() {
    let mut mesh = Mesh::new(vec![vertex(0)], vec![0], vec![texture(1, TextureKind::Diffuse, "a.png")]).unwrap();
    mesh.attach(handles());
    assert_eq!(mesh.release(), Some(handles()));
    assert_eq!(mesh.release(), None);
    assert_eq!(mesh.geometry().state(), HandleState::Released);
    assert_eq!(mesh.textures(), &vec![texture(1, TextureKind::Diffuse, "a.png")]);
}
