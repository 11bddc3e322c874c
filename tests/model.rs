use engine::model::{build_vertices, texture_slots};
use engine::{
    EngineConfig, GpuHandles, HandleState, Material, Model, ModelPlan, ResourceError, Scene, SubMesh,
    TextureBinding, TextureKind, TextureSlot, Vertex,
};

fn triangle(material_id: Option<usize>) -> SubMesh {
    SubMesh {
        positions: vec![1, 2, 3, 4, 5, 6, 7, 8, 9],
        normals: vec![11, 12, 13, 14, 15, 16, 17, 18, 19],
        texcoords: vec![21, 22, 23, 24, 25, 26],
        indices: vec![0, 1, 2],
        material_id,
    }
}

fn material(diffuse: &str, specular: &str, normal: &str) -> Material {
    Material {
        diffuse_texture: diffuse.to_string(),
        specular_texture: specular.to_string(),
        normal_texture: normal.to_string(),
    }
}

fn handles(base: u32) -> GpuHandles {
    GpuHandles { vertex_array: base, vertex_buffer: base + 1, index_buffer: base + 2 }
}

fn plan_of(subs: Vec<SubMesh>, materials: &Vec<Material>) -> Result<ModelPlan, ResourceError> {
    Model::plan_in("models".to_string(), subs, materials)
}

#[test]
fn vertices_are_read_from_flat_arrays() {
    let vs = build_vertices(&triangle(None)).unwrap();
    assert_eq!(
        vs,
        vec![
            Vertex { position: [1, 2, 3], normal: [11, 12, 13], tex_coords: [21, 22] },
            Vertex { position: [4, 5, 6], normal: [14, 15, 16], tex_coords: [23, 24] },
            Vertex { position: [7, 8, 9], normal: [17, 18, 19], tex_coords: [25, 26] },
        ]
    );
}

#[test]
fn missing_tex_coords_default_to_zero() {
    let mut sub = triangle(None);
    sub.texcoords = Vec::new();
    let vs = build_vertices(&sub).unwrap();
    assert_eq!(vs.len(), 3);
    assert!(vs.iter().all(|v| v.tex_coords == [0, 0]));
    assert_eq!(vs[2].position, [7, 8, 9]);
}

#[test]
fn missing_normals_fail() {
    let mut sub = triangle(None);
    sub.normals = Vec::new();
    assert_eq!(build_vertices(&sub), Err(ResourceError::MissingAttribute));
    let r = plan_of(vec![sub], &Vec::new());
    assert_eq!(r.err(), Some(ResourceError::MissingAttribute));
}

#[test]
fn missing_positions_fail() {
    let mut sub = triangle(None);
    sub.positions = Vec::new();
    assert_eq!(build_vertices(&sub), Err(ResourceError::MissingAttribute));
}

#[test]
fn short_normals_fail() {
    let mut sub = triangle(None);
    sub.normals.truncate(6);
    assert_eq!(build_vertices(&sub), Err(ResourceError::MissingAttribute));
}

#[test]
fn partial_tex_coords_fail() {
    let mut sub = triangle(None);
    sub.texcoords.truncate(4);
    assert_eq!(build_vertices(&sub), Err(ResourceError::MissingAttribute));
}

#[test]
fn ragged_positions_are_malformed() {
    let mut sub = triangle(None);
    sub.positions.push(10);
    assert_eq!(build_vertices(&sub), Err(ResourceError::ParseError));
}

#[test]
fn material_slots_follow_fixed_order() {
    let slots = texture_slots(&material("d.png", "", "n.png"));
    assert_eq!(
        slots,
        vec![
            TextureSlot { kind: TextureKind::Diffuse, path: "d.png".to_string() },
            TextureSlot { kind: TextureKind::Normal, path: "n.png".to_string() },
        ]
    );
    assert!(texture_slots(&material("", "", "")).is_empty());
}

#[test]
fn unknown_material_is_malformed() {
    let r = plan_of(vec![triangle(Some(1))], &vec![material("a.png", "", "")]);
    assert_eq!(r.err(), Some(ResourceError::ParseError));
}

#[test]
fn index_out_of_range_fails_plan() {
    let mut sub = triangle(None);
    sub.indices = vec![0, 1, 3];
    assert_eq!(plan_of(vec![sub], &Vec::new()).err(), Some(ResourceError::ParseError));
}

#[test]
fn first_failing_sub_mesh_decides_error() {
    let mut bad_normals = triangle(None);
    bad_normals.normals = Vec::new();
    let mut bad_index = triangle(None);
    bad_index.indices = vec![9];
    let r = plan_of(vec![triangle(None), bad_index, bad_normals], &Vec::new());
    assert_eq!(r.err(), Some(ResourceError::ParseError));
}

#[test]
fn directory_is_parent_of_model_path() {
    let plan = Model::plan("assets/house/house.obj", vec![triangle(None)], &Vec::new()).unwrap();
    assert_eq!(plan.directory(), "assets/house");
    let plan = Model::plan("house.obj", vec![triangle(None)], &Vec::new()).unwrap();
    assert_eq!(plan.directory(), "");
    let plan = Model::plan("", vec![triangle(None)], &Vec::new()).unwrap();
    assert_eq!(plan.directory(), "");
    let plan = Model::plan("/house.obj", vec![triangle(None)], &Vec::new()).unwrap();
    assert_eq!(plan.directory(), "/");
}

#[test]
fn shared_texture_is_loaded_once() {
    let materials = vec![material("wall.png", "", ""), material("wall.png", "", "")];
    let plan = plan_of(vec![triangle(Some(0)), triangle(Some(1))], &materials).unwrap();
    assert_eq!(plan.loads().len(), 1);
    assert_eq!(plan.loads()[0].path, "wall.png");
    assert_eq!(plan.loads()[0].file, "models/wall.png");
    assert_eq!(plan.loads()[0].kind, TextureKind::Diffuse);
    assert_eq!(plan.geometries().len(), 2);
    assert_eq!(plan.slots().len(), 2);
}

#[test]
fn two_meshes_sharing_wall_texture_end_to_end() {
    let materials = vec![material("wall.png", "", "")];
    let plan = plan_of(vec![triangle(Some(0)), triangle(Some(0))], &materials).unwrap();
    assert_eq!(plan.loads().len(), 1);
    let model = Model::new(plan, vec![42], vec![handles(10), handles(20)]);
    assert_eq!(model.cache().len(), 1);
    assert_eq!(model.cache().get("wall.png").unwrap().id, 42);
    assert_eq!(model.meshes().len(), 2);
    assert_eq!(model.directory(), "models");
    let draws = model.draw();
    assert_eq!(draws.len(), 2);
    let expected = vec![TextureBinding { unit: 0, sampler: "material.texture_diffuse1".to_string(), texture: 42 }];
    assert_eq!(draws[0].bindings, expected);
    assert_eq!(draws[1].bindings, expected);
    assert_eq!(draws[0].elements.vertex_array, 10);
    assert_eq!(draws[1].elements.vertex_array, 20);
    assert_eq!(draws[0].elements.count, 3);
}

#[test]
fn texture_reused_across_kinds_keeps_slot_kind() {
    let materials = vec![material("shared.png", "", ""), material("", "shared.png", "bump.png")];
    let plan = plan_of(vec![triangle(Some(0)), triangle(Some(1))], &materials).unwrap();
    assert_eq!(plan.loads().len(), 2);
    let model = Model::new(plan, vec![7, 8], vec![handles(10), handles(20)]);
    let second = model.meshes()[1].textures();
    assert_eq!(second[0].kind, TextureKind::Specular);
    assert_eq!(second[0].id, 7);
    assert_eq!(second[1].kind, TextureKind::Normal);
    assert_eq!(second[1].id, 8);
    let draws = model.draw();
    assert_eq!(draws[1].bindings[0].sampler, "material.texture_specular1");
    assert_eq!(draws[1].bindings[1].sampler, "material.texture_normal1");
}

#[test]
fn model_draws_meshes_in_file_order() {
    let plan = plan_of(vec![triangle(None), triangle(None), triangle(None)], &Vec::new()).unwrap();
    let model = Model::new(plan, Vec::new(), vec![handles(30), handles(10), handles(20)]);
    let order: Vec<u32> = model.draw().iter().map(|d| d.elements.vertex_array).collect();
    assert_eq!(order, vec![30, 10, 20]);
}

#[test]
fn model_release_returns_every_object() {
    let materials = vec![material("a.png", "b.png", "")];
    let plan = plan_of(vec![triangle(Some(0)), triangle(None)], &materials).unwrap();
    let model = Model::new(plan, vec![5, 6], vec![handles(10), handles(20)]);
    assert_eq!(model.meshes()[0].geometry().state(), HandleState::Live(handles(10)));
    let released = model.release();
    assert_eq!(released.geometry, vec![handles(10), handles(20)]);
    assert_eq!(released.textures, vec![5, 6]);
}

#[test]
fn scene_draw_uses_program_and_model() {
    let plan = plan_of(vec![triangle(None)], &Vec::new()).unwrap();
    let model = Model::new(plan, Vec::new(), vec![handles(10)]);
    let scene = Scene::new(99, model);
    assert_eq!(scene.program(), 99);
    let d = scene.draw();
    assert_eq!(d.program, 99);
    assert_eq!(d.meshes.len(), 1);
    let (program, resources) = scene.release();
    assert_eq!(program, 99);
    assert_eq!(resources.geometry, vec![handles(10)]);
}

#[test]
fn engine_config_holds_window_size() {
    let c = EngineConfig { window_width: 800, window_height: 600 };
    assert_eq!(c.window_width, 800);
    assert_eq!(c.window_height, 600);
}

#[test]
fn loads_follow_first_use_order() {
    let materials = vec![material("b.png", "a.png", ""), material("a.png", "", "c.png")];
    let plan = plan_of(vec![triangle(Some(0)), triangle(None), triangle(Some(1))], &materials).unwrap();
    let loads: Vec<(String, TextureKind)> = plan.loads().iter().map(|l| (l.path.clone(), l.kind)).collect();
    assert_eq!(
        loads,
        vec![
            ("b.png".to_string(), TextureKind::Diffuse),
            ("a.png".to_string(), TextureKind::Specular),
            ("c.png".to_string(), TextureKind::Normal),
        ]
    );
    assert_eq!(plan.loads()[2].file, "models/c.png");
    assert!(plan.slots()[1].is_empty());
    assert_eq!(plan.slots()[2].len(), 2);
}

#[test]
fn later_sub_mesh_without_normals_fails_plan() {
    let mut no_normals = triangle(None);
    no_normals.normals = Vec::new();
    let r = plan_of(vec![triangle(None), no_normals, triangle(None)], &Vec::new());
    assert_eq!(r.err(), Some(ResourceError::MissingAttribute));
}
