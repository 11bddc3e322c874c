use crate::error::ResourceError;
use vstd::prelude::*;

verus! {

/// Bytes in one interleaved vertex record.
pub const VERTEX_SIZE: usize = 32;

/// 32-bit words in one interleaved vertex record.
pub const VERTEX_WORDS: usize = 8;

/// Bytes in one index.
pub const INDEX_SIZE: usize = 4;

/// One vertex of a mesh.
///
/// Each component holds the IEEE-754 bit pattern of a 32-bit float; the
/// library moves components around but never computes with them.
#[derive(Clone, Copy, Debug, PartialEq, Eq)]
pub struct Vertex {
    pub position: [u32; 3],
    pub normal: [u32; 3],
    pub tex_coords: [u32; 2],
}

impl Vertex {
    /// The record's words in memory order: position, normal, texture coordinates.
    pub open spec fn words(self) -> Seq<u32> {
        seq![
            self.position[0],
            self.position[1],
            self.position[2],
            self.normal[0],
            self.normal[1],
            self.normal[2],
            self.tex_coords[0],
            self.tex_coords[1],
        ]
    }

    /// The components of the field that feeds attribute `location`.
    pub open spec fn field(self, location: u32) -> Seq<u32> {
        if location == 0 {
            self.position@
        } else if location == 1 {
            self.normal@
        } else {
            self.tex_coords@
        }
    }
}

/// How one vertex attribute reads the interleaved vertex buffer.
#[derive(Clone, Copy, Debug, PartialEq, Eq, Structural)]
pub struct VertexAttribute {
    /// Attribute location in the shader.
    pub location: u32,
    /// Number of 32-bit float components.
    pub components: u32,
    /// Byte offset of the first component within a vertex record.
    pub offset: usize,
    /// Bytes from one vertex record to the next.
    pub stride: usize,
}

/// Position, normal and texture coordinates, in that order, at their offsets.
pub open spec fn attribute_layout() -> Seq<VertexAttribute> {
    seq![
        VertexAttribute { location: 0, components: 3, offset: 0, stride: VERTEX_SIZE },
        VertexAttribute { location: 1, components: 3, offset: 12, stride: VERTEX_SIZE },
        VertexAttribute { location: 2, components: 2, offset: 24, stride: VERTEX_SIZE },
    ]
}

/// The three attribute bindings of the interleaved vertex layout.
pub fn vertex_attributes() -> (r: Vec<VertexAttribute>)
    ensures
        r@ == attribute_layout(),
{
    let mut r: Vec<VertexAttribute> = Vec::new();
    r.push(VertexAttribute { location: 0, components: 3, offset: 0, stride: VERTEX_SIZE });
    r.push(VertexAttribute { location: 1, components: 3, offset: 12, stride: VERTEX_SIZE });
    r.push(VertexAttribute { location: 2, components: 2, offset: 24, stride: VERTEX_SIZE });
    assert(r@ =~= attribute_layout());
    r
}

/// Every attribute reads, at its offset within a vertex record, exactly the
/// components of the field bound to its location, and stays inside the record.
pub proof fn lemma_attribute_layout(v: Vertex)
    ensures
        forall|a: int|
            0 <= a < attribute_layout().len() ==> {
                &&& (#[trigger] attribute_layout()[a]).location == a
                &&& attribute_layout()[a].stride == VERTEX_SIZE
                &&& attribute_layout()[a].offset % 4 == 0
                &&& attribute_layout()[a].offset / 4 + attribute_layout()[a].components <= VERTEX_WORDS
                &&& v.field(attribute_layout()[a].location).len() == attribute_layout()[a].components
            },
        forall|a: int, c: int|
            0 <= a < attribute_layout().len() && 0 <= c < attribute_layout()[a].components ==> v.words()[attribute_layout()[a].offset / 4 + c]
                == #[trigger] v.field(attribute_layout()[a].location)[c],
{
}

/// The device objects that hold one mesh's geometry.
#[derive(Clone, Copy, Debug, PartialEq, Eq, Structural)]
pub struct GpuHandles {
    pub vertex_array: u32,
    pub vertex_buffer: u32,
    pub index_buffer: u32,
}

/// Where a geometry buffer stands with respect to its device objects.
#[derive(Clone, Copy, Debug, PartialEq, Eq, Structural)]
pub enum HandleState {
    /// The data has not been uploaded yet.
    Pending,
    /// The data lives in these device objects, which this buffer owns.
    Live(GpuHandles),
    /// The device objects have been handed back for deletion.
    Released,
}

/// An indexed triangle-list draw call.
#[derive(Clone, Copy, Debug, PartialEq, Eq, Structural)]
pub struct DrawElements {
    /// The vertex array to bind before drawing.
    pub vertex_array: u32,
    /// The number of indices to draw.
    pub count: i32,
}

/// The largest vertex count whose buffer size fits a device size argument.
pub open spec fn max_vertices() -> nat {
    (isize::MAX as nat) / (VERTEX_SIZE as nat)
}

/// The largest index count that a draw call and an index buffer can take.
pub open spec fn max_indices() -> nat {
    if (i32::MAX as nat) <= (isize::MAX as nat) / (INDEX_SIZE as nat) {
        i32::MAX as nat
    } else {
        (isize::MAX as nat) / (INDEX_SIZE as nat)
    }
}

/// Whether every index refers to one of `n` vertices.
pub open spec fn indices_in_range(indices: Seq<u32>, n: nat) -> bool {
    forall|i: int| 0 <= i < indices.len() ==> (#[trigger] indices[i]) < n
}

/// Why `n` vertices with these indices cannot become a geometry buffer, if
/// they cannot: no vertices, or more than the device can address, is an
/// allocation failure; an index past the last vertex is malformed data.
pub open spec fn geometry_error(n: nat, indices: Seq<u32>) -> Option<ResourceError> {
    if n == 0 || n > max_vertices() || indices.len() > max_indices() {
        Some(ResourceError::GpuAllocationFailure)
    } else if !indices_in_range(indices, n) {
        Some(ResourceError::ParseError)
    } else {
        None
    }
}

/// The vertex and index data of one mesh and the device objects that hold it.
pub struct GeometryBuffer {
    vertices: Vec<Vertex>,
    indices: Vec<u32>,
    state: HandleState,
}

impl GeometryBuffer {
    pub closed spec fn vertex_seq(&self) -> Seq<Vertex> {
        self.vertices@
    }

    pub closed spec fn index_seq(&self) -> Seq<u32> {
        self.indices@
    }

    pub closed spec fn handle_state(&self) -> HandleState {
        self.state
    }

    /// The data can be uploaded and drawn: `geometry_error` finds nothing.
    pub open spec fn wf(&self) -> bool {
        geometry_error(self.vertex_seq().len(), self.index_seq()) is None
    }

    /// Takes ownership of the vertex and index lists, or says why they
    /// cannot be uploaded. The buffer starts with no device objects.
    pub fn create(vertices: Vec<Vertex>, indices: Vec<u32>) -> (r: Result<GeometryBuffer, ResourceError>)
        ensures
            match geometry_error(vertices@.len(), indices@) {
                Some(e) => r == Err::<GeometryBuffer, ResourceError>(e),
                None => r is Ok,
            },
            r matches Ok(g) ==> {
                &&& g.wf()
                &&& g.vertex_seq() == vertices@
                &&& g.index_seq() == indices@
                &&& g.handle_state() == HandleState::Pending
            },
    {
        let n = vertices.len();
        if n == 0 || n > (isize::MAX as usize) / VERTEX_SIZE || indices.len() > (i32::MAX as usize)
            || indices.len() > (isize::MAX as usize) / INDEX_SIZE {
            return Err(ResourceError::GpuAllocationFailure);
        }
        let mut i: usize = 0;
        while i < indices.len()
            invariant
                0 <= i <= indices@.len(),
                n == vertices@.len(),
                0 < n <= max_vertices(),
                indices@.len() <= max_indices(),
                forall|j: int| 0 <= j < i ==> (#[trigger] indices@[j]) < n,
            decreases indices@.len() - i,
        {
            if indices[i] as usize >= n {
                assert(!indices_in_range(indices@, n as nat)) by {
                    assert(indices@[i as int] >= n);
                }
                return Err(ResourceError::ParseError);
            }
            i = i + 1;
        }
        Ok(GeometryBuffer { vertices, indices, state: HandleState::Pending })
    }

    pub fn vertex_count(&self) -> (r: usize)
        ensures
            r == self.vertex_seq().len(),
    {
        self.vertices.len()
    }

    pub fn index_count(&self) -> (r: usize)
        ensures
            r == self.index_seq().len(),
    {
        self.indices.len()
    }

    pub fn vertices(&self) -> (r: &Vec<Vertex>)
        ensures
            r@ == self.vertex_seq(),
    {
        &self.vertices
    }

    pub fn indices(&self) -> (r: &Vec<u32>)
        ensures
            r@ == self.index_seq(),
    {
        &self.indices
    }

    pub fn state(&self) -> (r: HandleState)
        ensures
            r == self.handle_state(),
    {
        self.state
    }

    /// Size in bytes of the vertex buffer.
    pub fn vertex_bytes(&self) -> (r: usize)
        requires
            self.wf(),
        ensures
            r == self.vertex_seq().len() * VERTEX_SIZE,
    {
        self.vertices.len() * VERTEX_SIZE
    }

    /// Size in bytes of the index buffer.
    pub fn index_bytes(&self) -> (r: usize)
        requires
            self.wf(),
        ensures
            r == self.index_seq().len() * INDEX_SIZE,
    {
        self.indices.len() * INDEX_SIZE
    }

    /// The vertex buffer's contents: the words of every vertex, in order,
    /// each vertex occupying `VERTEX_WORDS` consecutive words.
    pub fn interleaved(&self) -> (r: Vec<u32>)
        requires
            self.wf(),
        ensures
            r@.len() == VERTEX_WORDS * self.vertex_seq().len(),
            forall|i: int, k: int|
                0 <= i < self.vertex_seq().len() && 0 <= k < VERTEX_WORDS ==> r@[VERTEX_WORDS * i + k]
                    == #[trigger] self.vertex_seq()[i].words()[k],
    {
        let n = self.vertices.len();
        let mut r: Vec<u32> = Vec::with_capacity(n * VERTEX_WORDS);
        let mut i: usize = 0;
        while i < n
            invariant
                0 <= i <= n,
                n == self.vertex_seq().len(),
                n <= max_vertices(),
                r@.len() == VERTEX_WORDS * i,
                forall|j: int, k: int|
                    0 <= j < i && 0 <= k < VERTEX_WORDS ==> r@[VERTEX_WORDS * j + k]
                        == #[trigger] self.vertex_seq()[j].words()[k],
            decreases n - i,
        {
            let v = self.vertices[i];
            let ghost before = r@;
            r.push(v.position[0]);
            r.push(v.position[1]);
            r.push(v.position[2]);
            r.push(v.normal[0]);
            r.push(v.normal[1]);
            r.push(v.normal[2]);
            r.push(v.tex_coords[0]);
            r.push(v.tex_coords[1]);
            assert(r@ =~= before + v.words());
            i = i + 1;
        }
        r
    }

    /// The vertex that draw position `i` refers to.
    pub fn vertex_at(&self, i: usize) -> (r: Vertex)
        requires
            self.wf(),
            i < self.index_seq().len(),
        ensures
            r == self.vertex_seq()[self.index_seq()[i as int] as int],
    {
        self.vertices[self.indices[i] as usize]
    }

    /// Hands over the device objects created for this buffer's data. The
    /// buffer owns them from then on.
    pub fn attach(&mut self, handles: GpuHandles)
        requires
            old(self).handle_state() == HandleState::Pending,
        ensures
            final(self).vertex_seq() == old(self).vertex_seq(),
            final(self).index_seq() == old(self).index_seq(),
            final(self).handle_state() == HandleState::Live(handles),
    {
        self.state = HandleState::Live(handles);
    }

    /// The draw call for this buffer: every index, in order, as one indexed
    /// triangle list. Nothing is drawn while the data is not on the device.
    pub fn draw(&self) -> (r: Option<DrawElements>)
        requires
            self.wf(),
        ensures
            r == match self.handle_state() {
                HandleState::Live(h) => Some(
                    DrawElements { vertex_array: h.vertex_array, count: self.index_seq().len() as i32 },
                ),
                _ => None,
            },
            r matches Some(d) ==> d.count == self.index_seq().len(),
    {
        match self.state {
            HandleState::Live(h) => Some(
                DrawElements { vertex_array: h.vertex_array, count: self.indices.len() as i32 },
            ),
            _ => None,
        }
    }

    /// Gives up the device objects for deletion. They are handed out once:
    /// afterwards the buffer is released and hands out nothing.
    pub fn release(&mut self) -> (r: Option<GpuHandles>)
        ensures
            final(self).vertex_seq() == old(self).vertex_seq(),
            final(self).index_seq() == old(self).index_seq(),
            final(self).handle_state() == HandleState::Released,
            r == match old(self).handle_state() {
                HandleState::Live(h) => Some(h),
                _ => None,
            },
    {
        let r = match self.state {
            HandleState::Live(h) => Some(h),
            _ => None,
        };
        self.state = HandleState::Released;
        r
    }
}

/// Every index of a well-formed buffer refers to one of its vertices, and a
/// draw covers all of them.
pub proof fn lemma_indices_in_range(g: &GeometryBuffer)
    requires
        g.wf(),
    ensures
        g.vertex_seq().len() > 0,
        g.index_seq().len() <= i32::MAX,
        forall|i: int| 0 <= i < g.index_seq().len() ==> (#[trigger] g.index_seq()[i]) < g.vertex_seq().len(),
{
}

} // verus!
