use crate::error::ResourceError;
use crate::geometry::{DrawElements, GeometryBuffer, GpuHandles, HandleState, Vertex};
use crate::texture::{kind_name, Texture, TextureKind};
use vstd::prelude::*;
use vstd::string::*;

verus! {

/// The character of a decimal digit.
pub open spec fn digit(d: nat) -> char {
    if d == 0 {
        '0'
    } else if d == 1 {
        '1'
    } else if d == 2 {
        '2'
    } else if d == 3 {
        '3'
    } else if d == 4 {
        '4'
    } else if d == 5 {
        '5'
    } else if d == 6 {
        '6'
    } else if d == 7 {
        '7'
    } else if d == 8 {
        '8'
    } else {
        '9'
    }
}

/// The decimal digits of `n`, most significant first, without leading zeros.
pub open spec fn decimal(n: nat) -> Seq<char>
    decreases n,
{
    if n < 10 {
        seq![digit(n)]
    } else {
        decimal(n / 10).push(digit(n % 10))
    }
}

fn digit_str(d: usize) -> (r: &'static str)
    requires
        d < 10,
    ensures
        r@ == seq![digit(d as nat)],
{
    proof {
        reveal_strlit("0");
        reveal_strlit("1");
        reveal_strlit("2");
        reveal_strlit("3");
        reveal_strlit("4");
        reveal_strlit("5");
        reveal_strlit("6");
        reveal_strlit("7");
        reveal_strlit("8");
        reveal_strlit("9");
    }
    let r = if d == 0 {
        "0"
    } else if d == 1 {
        "1"
    } else if d == 2 {
        "2"
    } else if d == 3 {
        "3"
    } else if d == 4 {
        "4"
    } else if d == 5 {
        "5"
    } else if d == 6 {
        "6"
    } else if d == 7 {
        "7"
    } else if d == 8 {
        "8"
    } else {
        "9"
    };
    assert(r@ =~= seq![digit(d as nat)]);
    r
}

/// `n` written in decimal.
pub fn decimal_string(n: usize) -> (r: String)
    ensures
        r@ == decimal(n as nat),
    decreases n,
{
    if n < 10 {
        let r = String::from_str(digit_str(n));
        r
    } else {
        let mut r = decimal_string(n / 10);
        r.append(digit_str(n % 10));
        assert(r@ =~= decimal(n as nat));
        r
    }
}

/// The sampler uniform for the `n`-th texture of kind `k` (counting from 1):
/// `"material." + kind name + n`.
pub open spec fn sampler_name(k: TextureKind, n: nat) -> Seq<char> {
    "material."@ + kind_name(k) + decimal(n)
}

/// The sampler uniform for the `n`-th texture of kind `kind`, counting from 1.
pub fn sampler_name_for(kind: TextureKind, n: usize) -> (r: String)
    ensures
        r@ == sampler_name(kind, n as nat),
{
    proof {
        reveal_strlit("material.");
    }
    let mut r = String::from_str("material.");
    r.append(kind.name());
    let digits = decimal_string(n);
    r.append(digits.as_str());
    assert(r@ =~= sampler_name(kind, n as nat));
    r
}

/// How many of the first `end` textures have kind `k`.
pub open spec fn count_kind(s: Seq<Texture>, k: TextureKind, end: int) -> nat
    decreases end,
{
    if end <= 0 {
        0
    } else {
        count_kind(s, k, end - 1) + if s[end - 1].kind == k {
            1nat
        } else {
            0nat
        }
    }
}

/// The number that texture `i` carries among the textures of its kind:
/// 1 for the first of a kind, 2 for the second, and so on.
pub open spec fn kind_number(s: Seq<Texture>, i: int) -> nat {
    count_kind(s, s[i].kind, i + 1)
}

/// One texture binding of a draw: texture object `texture` goes to texture
/// unit `unit`, and the sampler uniform `sampler` is set to that unit.
#[derive(Debug, PartialEq, Eq)]
pub struct TextureBinding {
    pub unit: usize,
    pub sampler: String,
    pub texture: u32,
}

/// What drawing one mesh takes: bind each texture in order, issue the draw
/// call, then make texture unit 0 active again.
#[derive(Debug, PartialEq, Eq)]
pub struct MeshDraw {
    pub bindings: Vec<TextureBinding>,
    pub elements: DrawElements,
}

/// Whether `b` binds texture `i` of `s`: unit `i`, the texture's object, and
/// the sampler named after its kind and its number within that kind.
pub open spec fn binds(b: TextureBinding, s: Seq<Texture>, i: int) -> bool {
    &&& b.unit == i
    &&& b.texture == s[i].id
    &&& b.sampler@ == sampler_name(s[i].kind, kind_number(s, i))
}

/// Whether `d` draws a mesh with textures `s` and geometry `g`.
pub open spec fn draws(d: MeshDraw, s: Seq<Texture>, g: GeometryBuffer) -> bool {
    &&& d.bindings@.len() == s.len()
    &&& forall|i: int| 0 <= i < s.len() ==> binds(#[trigger] d.bindings@[i], s, i)
    &&& g.handle_state() matches HandleState::Live(h)
    &&& d.elements == DrawElements { vertex_array: h.vertex_array, count: g.index_seq().len() as i32 }
}

/// A geometry buffer with the textures it is drawn with. The mesh owns the
/// buffer; the textures belong to the model's cache.
pub struct Mesh {
    geometry: GeometryBuffer,
    textures: Vec<Texture>,
}

impl Mesh {
    pub closed spec fn geometry_spec(&self) -> GeometryBuffer {
        self.geometry
    }

    pub closed spec fn texture_seq(&self) -> Seq<Texture> {
        self.textures@
    }

    pub open spec fn wf(&self) -> bool {
        self.geometry_spec().wf()
    }

    /// A mesh over new geometry, or why the geometry cannot be uploaded.
    pub fn new(vertices: Vec<Vertex>, indices: Vec<u32>, textures: Vec<Texture>) -> (r: Result<
        Mesh,
        ResourceError,
    >)
        ensures
            match crate::geometry::geometry_error(vertices@.len(), indices@) {
                Some(e) => r == Err::<Mesh, ResourceError>(e),
                None => r is Ok,
            },
            r matches Ok(m) ==> {
                &&& m.wf()
                &&& m.geometry_spec().vertex_seq() == vertices@
                &&& m.geometry_spec().index_seq() == indices@
                &&& m.geometry_spec().handle_state() == HandleState::Pending
                &&& m.texture_seq() == textures@
            },
    {
        match GeometryBuffer::create(vertices, indices) {
            Ok(geometry) => Ok(Mesh { geometry, textures }),
            Err(e) => Err(e),
        }
    }

    /// A mesh over an existing geometry buffer.
    pub fn from_parts(geometry: GeometryBuffer, textures: Vec<Texture>) -> (r: Mesh)
        ensures
            r.geometry_spec() == geometry,
            r.texture_seq() == textures@,
    {
        Mesh { geometry, textures }
    }

    pub fn geometry(&self) -> (r: &GeometryBuffer)
        ensures
            *r == self.geometry_spec(),
    {
        &self.geometry
    }

    pub fn textures(&self) -> (r: &Vec<Texture>)
        ensures
            r@ == self.texture_seq(),
    {
        &self.textures
    }

    /// Hands over the device objects created for the mesh's geometry.
    pub fn attach(&mut self, handles: GpuHandles)
        requires
            old(self).geometry_spec().handle_state() == HandleState::Pending,
        ensures
            final(self).geometry_spec().vertex_seq() == old(self).geometry_spec().vertex_seq(),
            final(self).geometry_spec().index_seq() == old(self).geometry_spec().index_seq(),
            final(self).geometry_spec().handle_state() == HandleState::Live(handles),
            final(self).texture_seq() == old(self).texture_seq(),
    {
        self.geometry.attach(handles);
    }

    /// Gives up the geometry's device objects for deletion, once. Textures
    /// are not released here: the cache owns them.
    pub fn release(&mut self) -> (r: Option<GpuHandles>)
        ensures
            final(self).geometry_spec().vertex_seq() == old(self).geometry_spec().vertex_seq(),
            final(self).geometry_spec().index_seq() == old(self).geometry_spec().index_seq(),
            final(self).geometry_spec().handle_state() == HandleState::Released,
            final(self).texture_seq() == old(self).texture_seq(),
            r == match old(self).geometry_spec().handle_state() {
                HandleState::Live(h) => Some(h),
                _ => None,
            },
    {
        self.geometry.release()
    }

    /// The sampler uniform of each texture, in order: the kind's name and a
    /// counter kept separately for each kind.
    pub fn sampler_names(&self) -> (r: Vec<String>)
        ensures
            r@.len() == self.texture_seq().len(),
            forall|i: int|
                0 <= i < r@.len() ==> (#[trigger] r@[i])@ == sampler_name(
                    self.texture_seq()[i].kind,
                    kind_number(self.texture_seq(), i),
                ),
    {
        let bindings = self.texture_bindings();
        let mut r: Vec<String> = Vec::new();
        let mut i: usize = 0;
        while i < bindings.len()
            invariant
                0 <= i <= bindings@.len(),
                bindings@.len() == self.texture_seq().len(),
                forall|j: int| 0 <= j < bindings@.len() ==> binds(#[trigger] bindings@[j], self.texture_seq(), j),
                r@.len() == i,
                forall|j: int|
                    0 <= j < i ==> (#[trigger] r@[j])@ == sampler_name(
                        self.texture_seq()[j].kind,
                        kind_number(self.texture_seq(), j),
                    ),
            decreases bindings@.len() - i,
        {
            assert(binds(bindings@[i as int], self.texture_seq(), i as int));
            r.push(bindings[i].sampler.clone());
            i = i + 1;
        }
        r
    }

    fn texture_bindings(&self) -> (r: Vec<TextureBinding>)
        ensures
            r@.len() == self.texture_seq().len(),
            forall|i: int| 0 <= i < r@.len() ==> binds(#[trigger] r@[i], self.texture_seq(), i),
    {
        let ghost s = self.textures@;
        let mut r: Vec<TextureBinding> = Vec::new();
        let mut diffuse: usize = 0;
        let mut specular: usize = 0;
        let mut normal: usize = 0;
        let mut i: usize = 0;
        while i < self.textures.len()
            invariant
                s == self.textures@,
                0 <= i <= s.len(),
                diffuse == count_kind(s, TextureKind::Diffuse, i as int),
                specular == count_kind(s, TextureKind::Specular, i as int),
                normal == count_kind(s, TextureKind::Normal, i as int),
                diffuse + specular + normal == i,
                r@.len() == i,
                forall|j: int| 0 <= j < i ==> binds(#[trigger] r@[j], s, j),
            decreases s.len() - i,
        {
            let t = &self.textures[i];
            let number = match t.kind {
                TextureKind::Diffuse => {
                    diffuse = diffuse + 1;
                    diffuse
                },
                TextureKind::Specular => {
                    specular = specular + 1;
                    specular
                },
                TextureKind::Normal => {
                    normal = normal + 1;
                    normal
                },
            };
            let sampler = sampler_name_for(t.kind, number);
            r.push(TextureBinding { unit: i, sampler, texture: t.id });
            i = i + 1;
        }
        r
    }

    /// The bindings and draw call that render this mesh: texture `i` goes
    /// to unit `i`, under the sampler named after its kind and its number
    /// within that kind; then every index is drawn. Nothing is drawn while
    /// the geometry is not on the device.
    pub fn draw(&self) -> (r: Option<MeshDraw>)
        requires
            self.wf(),
        ensures
            (r is Some) == (self.geometry_spec().handle_state() is Live),
            r matches Some(d) ==> draws(d, self.texture_seq(), self.geometry_spec()),
    {
        match self.geometry.draw() {
            Some(elements) => Some(MeshDraw { bindings: self.texture_bindings(), elements }),
            None => None,
        }
    }
}

/// Two diffuse textures followed by a specular one are bound to the samplers
/// `material.texture_diffuse1`, `material.texture_diffuse2` and
/// `material.texture_specular1`, in that order.
pub proof fn lemma_sampler_names_per_kind(s: Seq<Texture>)
    requires
        s.len() == 3,
        s[0].kind == TextureKind::Diffuse,
        s[1].kind == TextureKind::Diffuse,
        s[2].kind == TextureKind::Specular,
    ensures
        sampler_name(s[0].kind, kind_number(s, 0)) == "material.texture_diffuse1"@,
        sampler_name(s[1].kind, kind_number(s, 1)) == "material.texture_diffuse2"@,
        sampler_name(s[2].kind, kind_number(s, 2)) == "material.texture_specular1"@,
{
    reveal_strlit("material.");
    reveal_strlit("texture_diffuse");
    reveal_strlit("texture_specular");
    reveal_strlit("material.texture_diffuse1");
    reveal_strlit("material.texture_diffuse2");
    reveal_strlit("material.texture_specular1");
    reveal_with_fuel(count_kind, 4);
    assert(kind_number(s, 0) == 1);
    assert(kind_number(s, 1) == 2);
    assert(kind_number(s, 2) == 1);
    assert(decimal(1) =~= seq!['1']);
    assert(decimal(2) =~= seq!['2']);
    assert(sampler_name(s[0].kind, 1) =~= "material.texture_diffuse1"@);
    assert(sampler_name(s[1].kind, 2) =~= "material.texture_diffuse2"@);
    assert(sampler_name(s[2].kind, 1) =~= "material.texture_specular1"@);
}

} // verus!
