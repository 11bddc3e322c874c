use crate::error::ResourceError;
use crate::geometry::{geometry_error, GeometryBuffer, GpuHandles, HandleState, Vertex};
use crate::mesh::{draws, Mesh, MeshDraw};
use crate::texture::{cached, has_path, resolve_path, resolved_path, Texture, TextureCache, TextureKind};
use vstd::prelude::*;

verus! {

/// One sub-mesh as a model file gives it: flat attribute arrays (three words
/// per vertex for positions and normals, two for texture coordinates, each
/// word the bit pattern of a 32-bit float), the index list and the material.
#[derive(Debug)]
pub struct SubMesh {
    pub positions: Vec<u32>,
    pub normals: Vec<u32>,
    pub texcoords: Vec<u32>,
    pub indices: Vec<u32>,
    pub material_id: Option<usize>,
}

/// The texture paths of a material, relative to the model's directory; an
/// empty path means the material has no such map.
#[derive(Debug)]
pub struct Material {
    pub diffuse_texture: String,
    pub specular_texture: String,
    pub normal_texture: String,
}

/// Why a sub-mesh's attribute arrays cannot make vertices, if they cannot
/// (lengths `p` for positions, `n` for normals, `t` for texture
/// coordinates): positions and normals must both be there, for every vertex;
/// texture coordinates may be absent altogether, but not in part.
pub open spec fn attribute_error(p: nat, n: nat, t: nat) -> Option<ResourceError> {
    if p == 0 {
        Some(ResourceError::MissingAttribute)
    } else if p % 3 != 0 {
        Some(ResourceError::ParseError)
    } else if n != p {
        Some(ResourceError::MissingAttribute)
    } else if t != 0 && t != (p / 3) * 2 {
        Some(ResourceError::MissingAttribute)
    } else {
        None
    }
}

/// Whether `v` is vertex `i` of the flat arrays: its components are read at
/// `3 * i` and `2 * i`, and texture coordinates are (0, 0) when absent.
pub open spec fn is_vertex_of(v: Vertex, p: Seq<u32>, n: Seq<u32>, t: Seq<u32>, i: int) -> bool {
    &&& v.position@ == seq![p[3 * i], p[3 * i + 1], p[3 * i + 2]]
    &&& v.normal@ == seq![n[3 * i], n[3 * i + 1], n[3 * i + 2]]
    &&& v.tex_coords@ == if t.len() == 0 {
        seq![0u32, 0u32]
    } else {
        seq![t[2 * i], t[2 * i + 1]]
    }
}

/// Whether `vs` holds one vertex per position triple of `sub`, in order.
pub open spec fn vertices_of(sub: SubMesh, vs: Seq<Vertex>) -> bool {
    &&& vs.len() == sub.positions@.len() / 3
    &&& forall|i: int|
        0 <= i < vs.len() ==> is_vertex_of(
            #[trigger] vs[i],
            sub.positions@,
            sub.normals@,
            sub.texcoords@,
            i,
        )
}

/// The vertices of a sub-mesh, or why its arrays cannot make them.
pub fn build_vertices(sub: &SubMesh) -> (r: Result<Vec<Vertex>, ResourceError>)
    ensures
        match attribute_error(sub.positions@.len(), sub.normals@.len(), sub.texcoords@.len()) {
            Some(e) => r == Err::<Vec<Vertex>, ResourceError>(e),
            None => r matches Ok(vs) && vertices_of(*sub, vs@),
        },
{
    let p = &sub.positions;
    let nm = &sub.normals;
    let t = &sub.texcoords;
    if p.len() == 0 {
        return Err(ResourceError::MissingAttribute);
    }
    if p.len() % 3 != 0 {
        return Err(ResourceError::ParseError);
    }
    if nm.len() != p.len() {
        return Err(ResourceError::MissingAttribute);
    }
    let len = p.len();
    let n = len / 3;
    if t.len() != 0 && t.len() != n * 2 {
        return Err(ResourceError::MissingAttribute);
    }
    let mut vs: Vec<Vertex> = Vec::with_capacity(n);
    let mut i: usize = 0;
    while i < n
        invariant
            0 <= i <= n,
            n == p@.len() / 3,
            p@.len() == 3 * n,
            len == p@.len(),
            nm@.len() == 3 * n,
            t@.len() == 0 || t@.len() == 2 * n,
            p == &sub.positions,
            nm == &sub.normals,
            t == &sub.texcoords,
            vs@.len() == i,
            forall|j: int| 0 <= j < i ==> is_vertex_of(#[trigger] vs@[j], p@, nm@, t@, j),
        decreases n - i,
    {
        let tex_coords: [u32; 2] = if t.len() == 0 {
            [0, 0]
        } else {
            [t[2 * i], t[2 * i + 1]]
        };
        let v = Vertex {
            position: [p[3 * i], p[3 * i + 1], p[3 * i + 2]],
            normal: [nm[3 * i], nm[3 * i + 1], nm[3 * i + 2]],
            tex_coords,
        };
        assert(v.position@ =~= seq![p@[3 * i], p@[3 * i + 1], p@[3 * i + 2]]);
        assert(v.normal@ =~= seq![nm@[3 * i], nm@[3 * i + 1], nm@[3 * i + 2]]);
        if t.len() == 0 {
            assert(v.tex_coords@ =~= seq![0u32, 0u32]);
        } else {
            assert(v.tex_coords@ =~= seq![t@[2 * i], t@[2 * i + 1]]);
        }
        vs.push(v);
        i = i + 1;
    }
    Ok(vs)
}

/// A texture that a mesh asks for: its kind and its path relative to the
/// model's directory.
#[derive(Debug, PartialEq, Eq)]
pub struct TextureSlot {
    pub kind: TextureKind,
    pub path: String,
}

/// The slot for a map of kind `k` at path `p`: none when the path is empty.
pub open spec fn slot(k: TextureKind, p: Seq<char>) -> Seq<(TextureKind, Seq<char>)> {
    if p.len() == 0 {
        seq![]
    } else {
        seq![(k, p)]
    }
}

/// A material's texture slots: diffuse, then specular, then normal map,
/// each only where its path is given.
pub open spec fn material_slots(m: Material) -> Seq<(TextureKind, Seq<char>)> {
    slot(TextureKind::Diffuse, m.diffuse_texture@) + slot(TextureKind::Specular, m.specular_texture@)
        + slot(TextureKind::Normal, m.normal_texture@)
}

/// Slots as kind and path.
pub open spec fn slot_view(s: Seq<TextureSlot>) -> Seq<(TextureKind, Seq<char>)> {
    s.map_values(|x: TextureSlot| (x.kind, x.path@))
}

fn push_slot(slots: &mut Vec<TextureSlot>, kind: TextureKind, path: &String)
    ensures
        slot_view(final(slots)@) == slot_view(old(slots)@) + slot(kind, path@),
{
    if !path.as_str().is_empty() {
        slots.push(TextureSlot { kind, path: path.clone() });
    }
    assert(slot_view(final(slots)@) =~= slot_view(old(slots)@) + slot(kind, path@));
}

/// The texture slots of a material, in the order diffuse, specular, normal.
pub fn texture_slots(material: &Material) -> (r: Vec<TextureSlot>)
    ensures
        slot_view(r@) == material_slots(*material),
{
    let mut r: Vec<TextureSlot> = Vec::new();
    assert(slot_view(r@) =~= Seq::<(TextureKind, Seq<char>)>::empty());
    push_slot(&mut r, TextureKind::Diffuse, &material.diffuse_texture);
    push_slot(&mut r, TextureKind::Specular, &material.specular_texture);
    push_slot(&mut r, TextureKind::Normal, &material.normal_texture);
    assert(slot_view(r@) =~= material_slots(*material));
    r
}

/// Why a sub-mesh cannot become a mesh, if it cannot: its attributes, then
/// its material reference, then its geometry.
pub open spec fn sub_mesh_error(sub: SubMesh, materials_len: nat) -> Option<ResourceError> {
    match attribute_error(sub.positions@.len(), sub.normals@.len(), sub.texcoords@.len()) {
        Some(e) => Some(e),
        None => if sub.material_id matches Some(m) && m >= materials_len {
            Some(ResourceError::ParseError)
        } else {
            geometry_error(sub.positions@.len() / 3, sub.indices@)
        },
    }
}

/// The error of the first of the first `end` sub-meshes that has one.
pub open spec fn first_error(subs: Seq<SubMesh>, materials_len: nat, end: int) -> Option<
    ResourceError,
>
    decreases end,
{
    if end <= 0 {
        None
    } else {
        match first_error(subs, materials_len, end - 1) {
            Some(e) => Some(e),
            None => sub_mesh_error(subs[end - 1], materials_len),
        }
    }
}

/// The texture slots of a sub-mesh: those of its material, if it has one.
pub open spec fn slots_of(sub: SubMesh, materials: Seq<Material>) -> Seq<(TextureKind, Seq<char>)> {
    match sub.material_id {
        Some(m) => material_slots(materials[m as int]),
        None => seq![],
    }
}

/// A texture file to upload: the cache key, the file it resolves to, and the
/// kind of its first use.
#[derive(Debug, PartialEq, Eq)]
pub struct TextureLoad {
    pub path: String,
    pub file: String,
    pub kind: TextureKind,
}

/// No two loads share a path.
pub open spec fn load_paths_unique(l: Seq<TextureLoad>) -> bool {
    forall|i: int, j: int| 0 <= i < j < l.len() ==> l[i].path@ != l[j].path@
}

/// Whether some load has path `p`.
pub open spec fn has_load(l: Seq<TextureLoad>, p: Seq<char>) -> bool {
    exists|j: int| 0 <= j < l.len() && (#[trigger] l[j]).path@ == p
}

/// Whether some slot of some mesh has path `p`.
pub open spec fn has_slot(slots: Seq<Vec<TextureSlot>>, p: Seq<char>) -> bool {
    exists|k: int, a: int| 0 <= k < slots.len() && 0 <= a < slots[k]@.len() && (#[trigger] slots[k]@[a]).path@ == p
}

fn find_load(loads: &Vec<TextureLoad>, path: &String) -> (r: Option<usize>)
    ensures
        r matches Some(j) ==> j < loads@.len() && loads@[j as int].path@ == path@,
        r is None ==> !has_load(loads@, path@),
{
    let mut j: usize = 0;
    while j < loads.len()
        invariant
            0 <= j <= loads@.len(),
            forall|i: int| 0 <= i < j ==> (#[trigger] loads@[i]).path@ != path@,
        decreases loads@.len() - j,
    {
        if loads[j].path == *path {
            return Some(j);
        }
        j = j + 1;
    }
    None
}

/// What loading a model takes, decided before any device work: the
/// directory, one geometry buffer and slot list per sub-mesh, and each
/// distinct texture file once.
pub struct ModelPlan {
    directory: String,
    geometries: Vec<GeometryBuffer>,
    slots: Vec<Vec<TextureSlot>>,
    loads: Vec<TextureLoad>,
}

impl ModelPlan {
    pub closed spec fn directory_spec(&self) -> Seq<char> {
        self.directory@
    }

    pub closed spec fn geometry_seq(&self) -> Seq<GeometryBuffer> {
        self.geometries@
    }

    pub closed spec fn slot_seq(&self) -> Seq<Vec<TextureSlot>> {
        self.slots@
    }

    pub closed spec fn load_seq(&self) -> Seq<TextureLoad> {
        self.loads@
    }

    /// One slot list per geometry; every geometry uploadable and not yet
    /// uploaded; one load per distinct slot path, resolved against the
    /// directory, and no load that no slot asks for.
    pub open spec fn wf(&self) -> bool {
        &&& self.slot_seq().len() == self.geometry_seq().len()
        &&& forall|k: int|
            0 <= k < self.geometry_seq().len() ==> (#[trigger] self.geometry_seq()[k]).wf()
                && self.geometry_seq()[k].handle_state() == HandleState::Pending
        &&& load_paths_unique(self.load_seq())
        &&& forall|k: int, a: int|
            0 <= k < self.slot_seq().len() && 0 <= a < self.slot_seq()[k]@.len() ==> has_load(
                self.load_seq(),
                (#[trigger] self.slot_seq()[k]@[a]).path@,
            )
        &&& forall|j: int|
            0 <= j < self.load_seq().len() ==> has_slot(self.slot_seq(), (#[trigger] self.load_seq()[j]).path@)
        &&& forall|j: int|
            0 <= j < self.load_seq().len() ==> (#[trigger] self.load_seq()[j]).file@ == resolved_path(
                self.directory_spec(),
                self.load_seq()[j].path@,
            )
    }

    pub fn directory(&self) -> (r: &String)
        ensures
            r@ == self.directory_spec(),
    {
        &self.directory
    }

    pub fn geometries(&self) -> (r: &Vec<GeometryBuffer>)
        ensures
            r@ == self.geometry_seq(),
    {
        &self.geometries
    }

    pub fn slots(&self) -> (r: &Vec<Vec<TextureSlot>>)
        ensures
            r@ == self.slot_seq(),
    {
        &self.slots
    }

    /// The texture files to upload, each once.
    pub fn loads(&self) -> (r: &Vec<TextureLoad>)
        ensures
            r@ == self.load_seq(),
    {
        &self.loads
    }
}

/// A model: its meshes in file order, the cache that owns their textures,
/// and the directory its texture paths are relative to.
pub struct Model {
    meshes: Vec<Mesh>,
    cache: TextureCache,
    directory: String,
}

/// The textures of a mesh with these slots, found in a cache's entries.
pub open spec fn slot_textures(slots: Seq<TextureSlot>, entries: Seq<Texture>) -> Seq<Texture> {
    Seq::new(
        slots.len(),
        |a: int|
            Texture {
                id: match cached(entries, slots[a].path@) {
                    Some(t) => t.id,
                    None => 0,
                },
                kind: slots[a].kind,
                path: slots[a].path,
            },
    )
}

/// The device objects that a model gives up when it is released.
#[derive(Debug, PartialEq, Eq)]
pub struct ModelResources {
    /// The geometry objects of each mesh, in mesh order.
    pub geometry: Vec<GpuHandles>,
    /// The texture objects of the cache, in load order.
    pub textures: Vec<u32>,
}

/// The parent of a path as std::path::Path::parent computes it: the path
/// without its last component, or `None` when there is no parent.
pub uninterp spec fn parent_of(path: Seq<char>) -> Option<Seq<char>>;

/// Relies on std::path::Path::parent for the parent of a path.
#[verifier::external_body]
fn parent_path(path: &str) -> (r: Option<String>)
    ensures
        match r {
            Some(p) => parent_of(path@) == Some(p@),
            None => parent_of(path@) is None,
        },
{
    std::path::Path::new(path).parent().map(|p| p.to_string_lossy().into_owned())
}

/// The directory of a model file: the parent of its path, or the empty
/// string when the path has no parent.
pub open spec fn directory_of(path: Seq<char>) -> Seq<char> {
    match parent_of(path) {
        Some(d) => d,
        None => seq![],
    }
}

impl Model {
    pub closed spec fn mesh_seq(&self) -> Seq<Mesh> {
        self.meshes@
    }

    pub closed spec fn cache_spec(&self) -> TextureCache {
        self.cache
    }

    pub closed spec fn directory_spec(&self) -> Seq<char> {
        self.directory@
    }

    /// Every mesh is on the device, and every texture a mesh uses is the one
    /// cached under its path.
    pub open spec fn wf(&self) -> bool {
        &&& self.cache_spec().wf()
        &&& forall|k: int|
            0 <= k < self.mesh_seq().len() ==> (#[trigger] self.mesh_seq()[k]).wf()
                && self.mesh_seq()[k].geometry_spec().handle_state() is Live
        &&& forall|k: int, a: int|
            0 <= k < self.mesh_seq().len() && 0 <= a < self.mesh_seq()[k].texture_seq().len()
                ==> (cached(
                self.cache_spec().entries(),
                (#[trigger] self.mesh_seq()[k].texture_seq()[a]).path@,
            ) matches Some(c) && c.id == self.mesh_seq()[k].texture_seq()[a].id)
    }

    /// Plans loading the sub-meshes of a model file at `path`: its texture
    /// paths are relative to the file's parent directory, or to the empty
    /// directory when the path has no parent.
    pub fn plan(path: &str, sub_meshes: Vec<SubMesh>, materials: &Vec<Material>) -> (r: Result<
        ModelPlan,
        ResourceError,
    >)
        ensures
            match first_error(sub_meshes@, materials@.len(), sub_meshes@.len() as int) {
                Some(e) => r == Err::<ModelPlan, ResourceError>(e),
                None => r is Ok,
            },
            r matches Ok(plan) ==> plan.directory_spec() == directory_of(path@) && planned(
                plan,
                sub_meshes@,
                materials@,
            ),
    {
        let directory = match parent_path(path) {
            Some(d) => d,
            None => String::new(),
        };
        Model::plan_in(directory, sub_meshes, materials)
    }

    /// Plans loading these sub-meshes, with texture paths relative to
    /// `directory`. The first sub-mesh that cannot become a mesh decides the
    /// error; otherwise each becomes one geometry buffer with the slots of
    /// its material, and each distinct texture path one load.
    pub fn plan_in(directory: String, sub_meshes: Vec<SubMesh>, materials: &Vec<Material>) -> (r:
        Result<ModelPlan, ResourceError>)
        ensures
            match first_error(sub_meshes@, materials@.len(), sub_meshes@.len() as int) {
                Some(e) => r == Err::<ModelPlan, ResourceError>(e),
                None => r is Ok,
            },
            r matches Ok(plan) ==> plan.directory_spec() == directory@ && planned(
                plan,
                sub_meshes@,
                materials@,
            ),
    {
        let ghost subs = sub_meshes@;
        let total = sub_meshes.len();
        let mut rest = sub_meshes;
        let mut geometries: Vec<GeometryBuffer> = Vec::new();
        let mut slots: Vec<Vec<TextureSlot>> = Vec::new();
        let mut loads: Vec<TextureLoad> = Vec::new();
        let mut k: usize = 0;
        while rest.len() > 0
            invariant
                0 <= k <= subs.len(),
                total == subs.len(),
                subs == sub_meshes@,
                rest@ == subs.subrange(k as int, subs.len() as int),
                first_error(subs, materials@.len(), k as int) is None,
                geometries@.len() == k,
                slots@.len() == k,
                forall|i: int|
                    0 <= i < k ==> {
                        &&& (#[trigger] geometries@[i]).wf()
                        &&& geometries@[i].handle_state() == HandleState::Pending
                        &&& vertices_of(subs[i], geometries@[i].vertex_seq())
                        &&& geometries@[i].index_seq() == subs[i].indices@
                        &&& slot_view(slots@[i]@) == slots_of(subs[i], materials@)
                    },
                load_paths_unique(loads@),
                load_view(loads@) == first_uses(slots_upto(subs, materials@, k as int)),
                forall|i: int, a: int|
                    0 <= i < k && 0 <= a < slots@[i]@.len() ==> has_load(
                        loads@,
                        (#[trigger] slots@[i]@[a]).path@,
                    ),
                forall|j: int| 0 <= j < loads@.len() ==> has_slot(slots@, (#[trigger] loads@[j]).path@),
                forall|j: int|
                    0 <= j < loads@.len() ==> (#[trigger] loads@[j]).file@ == resolved_path(
                        directory@,
                        loads@[j].path@,
                    ),
            decreases rest@.len(),
        {
            assert(rest@[0] == subs[k as int]);
            let sub = rest.remove(0);
            let vertices = match build_vertices(&sub) {
                Ok(vs) => vs,
                Err(e) => {
                    proof {
                        assert(sub_mesh_error(subs[k as int], materials@.len()) == Some(e));
                        assert(first_error(subs, materials@.len(), k as int + 1) == Some(e));
                        lemma_first_error_stays(subs, materials@.len(), k as int + 1);
                    }
                    return Err(e);
                },
            };
            let mesh_slots = match sub.material_id {
                Some(m) => {
                    if m >= materials.len() {
                        proof {
                            assert(attribute_error(sub.positions@.len(), sub.normals@.len(), sub.texcoords@.len()) is None);
                            assert(sub_mesh_error(subs[k as int], materials@.len()) == Some(ResourceError::ParseError));
                            lemma_first_error_stays(subs, materials@.len(), k as int + 1);
                        }
                        return Err(ResourceError::ParseError);
                    }
                    texture_slots(&materials[m])
                },
                None => {
                    let v: Vec<TextureSlot> = Vec::new();
                    assert(slot_view(v@) =~= Seq::<(TextureKind, Seq<char>)>::empty());
                    v
                },
            };
            let ghost indices = sub.indices@;
            let geometry = match GeometryBuffer::create(vertices, sub.indices) {
                Ok(g) => g,
                Err(e) => {
                    proof {
                        lemma_first_error_stays(subs, materials@.len(), k as int + 1);
                    }
                    return Err(e);
                },
            };
            // Schedule each new texture path once.
            let ghost slots_before = slots@;
            let ghost loads_before = loads@;
            let mut a: usize = 0;
            while a < mesh_slots.len()
                invariant
                    0 <= a <= mesh_slots@.len(),
                    load_paths_unique(loads@),
                    load_view(loads@) == first_uses(
                        slots_upto(subs, materials@, k as int) + slot_view(mesh_slots@).subrange(0, a as int),
                    ),
                    forall|b: int| 0 <= b < a ==> has_load(loads@, (#[trigger] mesh_slots@[b]).path@),
                    forall|i: int, b: int|
                        0 <= i < k && 0 <= b < slots_before[i]@.len() ==> has_load(
                            loads@,
                            (#[trigger] slots_before[i]@[b]).path@,
                        ),
                    forall|j: int|
                        0 <= j < loads@.len() ==> has_slot(slots_before, (#[trigger] loads@[j]).path@)
                            || exists|b: int| 0 <= b < a && (#[trigger] mesh_slots@[b]).path@ == loads@[j].path@,
                    forall|j: int|
                        0 <= j < loads@.len() ==> (#[trigger] loads@[j]).file@ == resolved_path(
                            directory@,
                            loads@[j].path@,
                        ),
                    slots_before == slots@,
                    slots_before.len() == k,
                decreases mesh_slots@.len() - a,
            {
                let s = &mesh_slots[a];
                let ghost pre = slots_upto(subs, materials@, k as int) + slot_view(mesh_slots@).subrange(0, a as int);
                let ghost next = slots_upto(subs, materials@, k as int) + slot_view(mesh_slots@).subrange(0, a as int + 1);
                assert(next.drop_last() =~= pre);
                assert(next.last() == (s.kind, s.path@));
                match find_load(&loads, &s.path) {
                    Some(j) => {
                        assert(loads@[j as int].path@ == s.path@);
                        assert(load_view(loads@)[j as int].1 == s.path@);
                        assert(first_uses(next) == first_uses(pre));
                    },
                    None => {
                        let file = resolve_path(directory.as_str(), s.path.as_str());
                        let ghost before = loads@;
                        loads.push(TextureLoad { path: s.path.clone(), file, kind: s.kind });
                        assert(loads@[before.len() as int].path@ == s.path@);
                        assert forall|j: int| 0 <= j < load_view(before).len() implies (#[trigger] load_view(before)[j]).1 != s.path@ by {
                            assert(before[j].path@ != s.path@);
                        }
                        assert(first_uses(next) == first_uses(pre).push((s.kind, s.path@)));
                        assert(load_view(loads@) =~= load_view(before).push((s.kind, s.path@)));
                        assert forall|i: int, b: int|
                            0 <= i < k && 0 <= b < slots_before[i]@.len() implies has_load(
                                loads@,
                                (#[trigger] slots_before[i]@[b]).path@,
                            ) by {
                            let j = choose|j: int| 0 <= j < before.len() && (#[trigger] before[j]).path@ == slots_before[i]@[b].path@;
                            assert(loads@[j] == before[j]);
                        }
                        assert forall|b: int| 0 <= b < a implies has_load(loads@, (#[trigger] mesh_slots@[b]).path@) by {
                            let j = choose|j: int| 0 <= j < before.len() && (#[trigger] before[j]).path@ == mesh_slots@[b].path@;
                            assert(loads@[j] == before[j]);
                        }
                    },
                }
                assert(has_load(loads@, mesh_slots@[a as int].path@));
                assert(load_view(loads@) == first_uses(next));
                a = a + 1;
            }
            proof {
                assert(first_error(subs, materials@.len(), k as int + 1) is None);
                assert(slot_view(mesh_slots@).subrange(0, mesh_slots@.len() as int) =~= slot_view(mesh_slots@));
                assert(slots_upto(subs, materials@, k as int + 1) == slots_upto(subs, materials@, k as int)
                    + slots_of(subs[k as int], materials@));
            }
            geometries.push(geometry);
            slots.push(mesh_slots);
            proof {
                assert forall|j: int| 0 <= j < loads@.len() implies has_slot(slots@, (#[trigger] loads@[j]).path@) by {
                    if has_slot(slots_before, loads@[j].path@) {
                        let (i, b) = choose|i: int, b: int| 0 <= i < slots_before.len() && 0 <= b < slots_before[i]@.len() && (#[trigger] slots_before[i]@[b]).path@ == loads@[j].path@;
                        assert(slots@[i] == slots_before[i]);
                    } else {
                        let b = choose|b: int| 0 <= b < mesh_slots@.len() && (#[trigger] mesh_slots@[b]).path@ == loads@[j].path@;
                        assert(slots@[k as int] == mesh_slots);
                    }
                }
                assert forall|i: int, b: int|
                    0 <= i < k + 1 && 0 <= b < slots@[i]@.len() implies has_load(
                        loads@,
                        (#[trigger] slots@[i]@[b]).path@,
                    ) by {
                    if i < k {
                        assert(slots@[i] == slots_before[i]);
                    }
                }
            }
            k = k + 1;
        }
        assert(subs.subrange(k as int, subs.len() as int).len() == 0);
        Ok(ModelPlan { directory, geometries, slots, loads })
    }
}

impl Model {
    /// The model built from a plan once the device work is done:
    /// `texture_ids[j]` is the texture object uploaded for load `j`, and
    /// `geometry[k]` the objects holding geometry `k`. The cache holds one
    /// entry per load; mesh `k` owns geometry `k` and uses, for each of its
    /// slots, the cached texture of that path with the slot's kind.
    pub fn new(plan: ModelPlan, texture_ids: Vec<u32>, geometry: Vec<GpuHandles>) -> (r: Model)
        requires
            plan.wf(),
            texture_ids@.len() == plan.load_seq().len(),
            geometry@.len() == plan.geometry_seq().len(),
        ensures
            r.wf(),
            r.directory_spec() == plan.directory_spec(),
            r.cache_spec().entries().len() == plan.load_seq().len(),
            forall|j: int|
                0 <= j < plan.load_seq().len() ==> (#[trigger] r.cache_spec().entries()[j]) == (Texture {
                    id: texture_ids@[j],
                    kind: plan.load_seq()[j].kind,
                    path: plan.load_seq()[j].path,
                }),
            r.mesh_seq().len() == plan.geometry_seq().len(),
            forall|k: int|
                0 <= k < plan.geometry_seq().len() ==> {
                    &&& (#[trigger] r.mesh_seq()[k]).geometry_spec().vertex_seq()
                        == plan.geometry_seq()[k].vertex_seq()
                    &&& r.mesh_seq()[k].geometry_spec().index_seq() == plan.geometry_seq()[k].index_seq()
                    &&& r.mesh_seq()[k].geometry_spec().handle_state() == HandleState::Live(geometry@[k])
                    &&& r.mesh_seq()[k].texture_seq() == slot_textures(
                        plan.slot_seq()[k]@,
                        r.cache_spec().entries(),
                    )
                },
    {
        let ghost plan_copy = plan;
        let total = geometry.len();
        let ModelPlan { directory, geometries, slots, loads } = plan;
        let mut cache = TextureCache::new();
        let mut j: usize = 0;
        while j < loads.len()
            invariant
                0 <= j <= loads@.len(),
                loads@ == plan_copy.load_seq(),
                texture_ids@.len() == loads@.len(),
                load_paths_unique(loads@),
                cache.wf(),
                cache.entries().len() == j,
                forall|i: int|
                    0 <= i < j ==> (#[trigger] cache.entries()[i]) == (Texture {
                        id: texture_ids@[i],
                        kind: loads@[i].kind,
                        path: loads@[i].path,
                    }),
            decreases loads@.len() - j,
        {
            let t = Texture { id: texture_ids[j], kind: loads[j].kind, path: loads[j].path.clone() };
            assert forall|i: int| 0 <= i < cache.entries().len() implies (#[trigger] cache.entries()[i]).path@
                != t.path@ by {
                assert(loads@[i].path@ != loads@[j as int].path@);
            }
            cache.insert(t);
            j = j + 1;
        }
        let ghost entries = cache.entries();
        assert forall|k: int, a: int|
            0 <= k < slots@.len() && 0 <= a < slots@[k]@.len() implies has_path(
                entries,
                (#[trigger] slots@[k]@[a]).path@,
            ) by {
            assert(has_load(loads@, slots@[k]@[a].path@));
            let i = choose|i: int| 0 <= i < loads@.len() && (#[trigger] loads@[i]).path@ == slots@[k]@[a].path@;
            assert(entries[i].path@ == loads@[i].path@);
        }
        let mut rest = geometries;
        let mut meshes: Vec<Mesh> = Vec::new();
        let mut k: usize = 0;
        while rest.len() > 0
            invariant
                0 <= k <= plan_copy.geometry_seq().len(),
                geometry@.len() == plan_copy.geometry_seq().len(),
                total == geometry@.len(),
                rest@ == plan_copy.geometry_seq().subrange(k as int, plan_copy.geometry_seq().len() as int),
                slots@ == plan_copy.slot_seq(),
                plan_copy.wf(),
                cache.wf(),
                cache.entries() == entries,
                forall|k2: int, a: int|
                    0 <= k2 < slots@.len() && 0 <= a < slots@[k2]@.len() ==> has_path(
                        entries,
                        (#[trigger] slots@[k2]@[a]).path@,
                    ),
                meshes@.len() == k,
                forall|i: int|
                    0 <= i < k ==> {
                        &&& (#[trigger] meshes@[i]).wf()
                        &&& meshes@[i].geometry_spec().vertex_seq() == plan_copy.geometry_seq()[i].vertex_seq()
                        &&& meshes@[i].geometry_spec().index_seq() == plan_copy.geometry_seq()[i].index_seq()
                        &&& meshes@[i].geometry_spec().handle_state() == HandleState::Live(geometry@[i])
                        &&& meshes@[i].texture_seq() == slot_textures(slots@[i]@, entries)
                    },
            decreases rest@.len(),
        {
            assert(rest@[0] == plan_copy.geometry_seq()[k as int]);
            let mut g = rest.remove(0);
            g.attach(geometry[k]);
            let textures = resolve_textures(&cache, &slots[k]);
            meshes.push(Mesh::from_parts(g, textures));
            k = k + 1;
        }
        let r = Model { meshes, cache, directory };
        assert forall|k: int, a: int|
            0 <= k < r.mesh_seq().len() && 0 <= a < r.mesh_seq()[k].texture_seq().len() implies (cached(
                r.cache_spec().entries(),
                (#[trigger] r.mesh_seq()[k].texture_seq()[a]).path@,
            ) matches Some(c) && c.id == r.mesh_seq()[k].texture_seq()[a].id) by {
            assert(has_path(entries, slots@[k]@[a].path@));
        }
        r
    }

    pub fn meshes(&self) -> (r: &Vec<Mesh>)
        ensures
            r@ == self.mesh_seq(),
    {
        &self.meshes
    }

    pub fn cache(&self) -> (r: &TextureCache)
        ensures
            *r == self.cache_spec(),
    {
        &self.cache
    }

    pub fn directory(&self) -> (r: &String)
        ensures
            r@ == self.directory_spec(),
    {
        &self.directory
    }

    /// What drawing the model takes: every mesh, in the order it was loaded.
    pub fn draw(&self) -> (r: Vec<MeshDraw>)
        requires
            self.wf(),
        ensures
            model_draws(r@, self.mesh_seq()),
    {
        let mut r: Vec<MeshDraw> = Vec::new();
        let mut k: usize = 0;
        while k < self.meshes.len()
            invariant
                self.wf(),
                0 <= k <= self.mesh_seq().len(),
                r@.len() == k,
                forall|i: int|
                    0 <= i < k ==> draws(
                        #[trigger] r@[i],
                        self.mesh_seq()[i].texture_seq(),
                        self.mesh_seq()[i].geometry_spec(),
                    ),
            decreases self.mesh_seq().len() - k,
        {
            let d = self.meshes[k].draw();
            r.push(d.unwrap());
            k = k + 1;
        }
        r
    }

    /// Gives up every device object the model owns, for deletion: the
    /// geometry objects of each mesh and the cache's texture objects. The
    /// model is consumed, so nothing is handed out twice.
    pub fn release(self) -> (r: ModelResources)
        requires
            self.wf(),
        ensures
            r.geometry@.len() == self.mesh_seq().len(),
            forall|k: int|
                0 <= k < self.mesh_seq().len() ==> (#[trigger] self.mesh_seq()[k]).geometry_spec().handle_state()
                    == HandleState::Live(r.geometry@[k]),
            r.textures@.len() == self.cache_spec().entries().len(),
            forall|j: int|
                0 <= j < r.textures@.len() ==> r.textures@[j] == (#[trigger] self.cache_spec().entries()[j]).id,
    {
        let ghost old_meshes = self.meshes@;
        let total = self.meshes.len();
        let Model { meshes, mut cache, directory: _ } = self;
        let textures = cache.release();
        let mut rest = meshes;
        let mut geometry: Vec<GpuHandles> = Vec::new();
        let mut k: usize = 0;
        while rest.len() > 0
            invariant
                0 <= k <= old_meshes.len(),
                total == old_meshes.len(),
                rest@ == old_meshes.subrange(k as int, old_meshes.len() as int),
                forall|i: int|
                    0 <= i < old_meshes.len() ==> (#[trigger] old_meshes[i]).geometry_spec().handle_state() is Live,
                geometry@.len() == k,
                forall|i: int|
                    0 <= i < k ==> (#[trigger] old_meshes[i]).geometry_spec().handle_state() == HandleState::Live(
                        geometry@[i],
                    ),
            decreases rest@.len(),
        {
            assert(rest@[0] == old_meshes[k as int]);
            let mut m = rest.remove(0);
            let h = m.release();
            geometry.push(h.unwrap());
            k = k + 1;
        }
        ModelResources { geometry, textures }
    }
}

/// Whether `ds` draws these meshes, one draw each, in order.
pub open spec fn model_draws(ds: Seq<MeshDraw>, meshes: Seq<Mesh>) -> bool {
    &&& ds.len() == meshes.len()
    &&& forall|k: int|
        0 <= k < meshes.len() ==> draws(#[trigger] ds[k], meshes[k].texture_seq(), meshes[k].geometry_spec())
}

fn resolve_textures(cache: &TextureCache, slots: &Vec<TextureSlot>) -> (r: Vec<Texture>)
    requires
        cache.wf(),
        forall|a: int| 0 <= a < slots@.len() ==> has_path(cache.entries(), (#[trigger] slots@[a]).path@),
    ensures
        r@ == slot_textures(slots@, cache.entries()),
{
    let mut r: Vec<Texture> = Vec::new();
    let mut a: usize = 0;
    while a < slots.len()
        invariant
            0 <= a <= slots@.len(),
            cache.wf(),
            forall|b: int| 0 <= b < slots@.len() ==> has_path(cache.entries(), (#[trigger] slots@[b]).path@),
            r@ =~= slot_textures(slots@, cache.entries()).subrange(0, a as int),
        decreases slots@.len() - a,
    {
        let s = &slots[a];
        assert(has_path(cache.entries(), slots@[a as int].path@));
        let found = cache.get(s.path.as_str());
        let c = found.unwrap();
        r.push(Texture { id: c.id, kind: s.kind, path: s.path.clone() });
        a = a + 1;
    }
    r
}

/// In a loaded model, two textures with the same path, in the same mesh or
/// in different ones, are the same device texture: the one the cache holds
/// for that path, which holds no path twice.
pub proof fn lemma_shared_path_shared_texture(m: &Model, k1: int, a1: int, k2: int, a2: int)
    requires
        m.wf(),
        0 <= k1 < m.mesh_seq().len(),
        0 <= a1 < m.mesh_seq()[k1].texture_seq().len(),
        0 <= k2 < m.mesh_seq().len(),
        0 <= a2 < m.mesh_seq()[k2].texture_seq().len(),
        m.mesh_seq()[k1].texture_seq()[a1].path@ == m.mesh_seq()[k2].texture_seq()[a2].path@,
    ensures
        m.mesh_seq()[k1].texture_seq()[a1].id == m.mesh_seq()[k2].texture_seq()[a2].id,
        cached(m.cache_spec().entries(), m.mesh_seq()[k1].texture_seq()[a1].path@) matches Some(c) && c.id
            == m.mesh_seq()[k1].texture_seq()[a1].id,
        crate::texture::paths_unique(m.cache_spec().entries()),
{
    assert(cached(m.cache_spec().entries(), m.mesh_seq()[k1].texture_seq()[a1].path@) is Some);
    assert(cached(m.cache_spec().entries(), m.mesh_seq()[k2].texture_seq()[a2].path@) is Some);
}

/// Each texture path that a planned mesh asks for is loaded exactly once:
/// one load carries it, and no other.
pub proof fn lemma_each_path_loaded_once(plan: ModelPlan, k: int, a: int)
    requires
        plan.wf(),
        0 <= k < plan.slot_seq().len(),
        0 <= a < plan.slot_seq()[k]@.len(),
    ensures
        exists|j: int|
            0 <= j < plan.load_seq().len() && (#[trigger] plan.load_seq()[j]).path@
                == plan.slot_seq()[k]@[a].path@ && forall|j2: int|
                0 <= j2 < plan.load_seq().len() && (#[trigger] plan.load_seq()[j2]).path@
                    == plan.slot_seq()[k]@[a].path@ ==> j2 == j,
{
    let p = plan.slot_seq()[k]@[a].path@;
    assert(has_load(plan.load_seq(), p));
    let j = choose|j: int| 0 <= j < plan.load_seq().len() && (#[trigger] plan.load_seq()[j]).path@ == p;
    assert forall|j2: int|
        0 <= j2 < plan.load_seq().len() && (#[trigger] plan.load_seq()[j2]).path@ == p implies j2 == j by {
        if j2 < j {
            assert(plan.load_seq()[j2].path@ != plan.load_seq()[j].path@);
        } else if j < j2 {
            assert(plan.load_seq()[j].path@ != plan.load_seq()[j2].path@);
        }
    }
}

/// A sub-mesh whose positions come in whole triples but which has no normals
/// makes loading fail with `MissingAttribute`, never with zero-filled
/// normals, unless an earlier sub-mesh fails first.
pub proof fn lemma_missing_normals_fail(subs: Seq<SubMesh>, materials_len: nat, k: int)
    requires
        0 <= k < subs.len(),
        subs[k].positions@.len() > 0,
        subs[k].positions@.len() % 3 == 0,
        subs[k].normals@.len() == 0,
        first_error(subs, materials_len, k) is None,
    ensures
        first_error(subs, materials_len, subs.len() as int) == Some(ResourceError::MissingAttribute),
{
    assert(first_error(subs, materials_len, k + 1) == Some(ResourceError::MissingAttribute));
    lemma_first_error_stays(subs, materials_len, k + 1);
}

/// The first error of a prefix stays the first error of any longer prefix.
proof fn lemma_first_error_stays(subs: Seq<SubMesh>, materials_len: nat, end: int)
    requires
        0 <= end <= subs.len(),
        first_error(subs, materials_len, end) is Some,
    ensures
        first_error(subs, materials_len, subs.len() as int) == first_error(subs, materials_len, end),
    decreases subs.len() - end,
{
    if end < subs.len() {
        lemma_first_error_stays(subs, materials_len, end + 1);
    }
}

/// The slots in `s` whose path no earlier slot has, in order: the texture
/// loads that the slots call for, each with the kind of its first use.
pub open spec fn first_uses(s: Seq<(TextureKind, Seq<char>)>) -> Seq<(TextureKind, Seq<char>)>
    decreases s.len(),
{
    if s.len() == 0 {
        seq![]
    } else {
        let prev = first_uses(s.drop_last());
        if exists|j: int| 0 <= j < prev.len() && (#[trigger] prev[j]).1 == s.last().1 {
            prev
        } else {
            prev.push(s.last())
        }
    }
}

/// The slots of the first `end` sub-meshes, one sub-mesh after another.
pub open spec fn slots_upto(subs: Seq<SubMesh>, materials: Seq<Material>, end: int) -> Seq<
    (TextureKind, Seq<char>),
>
    decreases end,
{
    if end <= 0 {
        seq![]
    } else {
        slots_upto(subs, materials, end - 1) + slots_of(subs[end - 1], materials)
    }
}

/// Loads as kind and path.
pub open spec fn load_view(l: Seq<TextureLoad>) -> Seq<(TextureKind, Seq<char>)> {
    l.map_values(|x: TextureLoad| (x.kind, x.path@))
}

/// Whether `plan` plans these sub-meshes: one uploadable geometry per
/// sub-mesh with its vertices and indices, the slots of its material, and the
/// invariant of a plan; and one load for each slot whose path no earlier
/// slot has, in order.
pub open spec fn planned(plan: ModelPlan, subs: Seq<SubMesh>, materials: Seq<Material>) -> bool {
    &&& plan.wf()
    &&& plan.geometry_seq().len() == subs.len()
    &&& forall|k: int|
        0 <= k < subs.len() ==> {
            &&& vertices_of(subs[k], (#[trigger] plan.geometry_seq()[k]).vertex_seq())
            &&& plan.geometry_seq()[k].index_seq() == subs[k].indices@
            &&& slot_view(plan.slot_seq()[k]@) == slots_of(subs[k], materials)
        }
    &&& load_view(plan.load_seq()) == first_uses(slots_upto(subs, materials, subs.len() as int))
}

} // verus!
