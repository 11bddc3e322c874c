use crate::mesh::MeshDraw;
use crate::model::{model_draws, Model, ModelResources};
use crate::geometry::HandleState;
use vstd::prelude::*;

verus! {

/// What drawing a scene takes: make the shader program current, then draw
/// every mesh of its model in order.
#[derive(Debug, PartialEq, Eq)]
pub struct SceneDraw {
    pub program: u32,
    pub meshes: Vec<MeshDraw>,
}

/// A shader program and the model it renders. The scene owns both.
pub struct Scene {
    program: u32,
    root: Model,
}

impl Scene {
    pub closed spec fn program_spec(&self) -> u32 {
        self.program
    }

    pub closed spec fn root_spec(&self) -> Model {
        self.root
    }

    pub open spec fn wf(&self) -> bool {
        self.root_spec().wf()
    }

    /// A scene rendering `root` with the linked shader program `program`.
    pub fn new(program: u32, root: Model) -> (r: Scene)
        ensures
            r.program_spec() == program,
            r.root_spec() == root,
    {
        Scene { program, root }
    }

    pub fn program(&self) -> (r: u32)
        ensures
            r == self.program_spec(),
    {
        self.program
    }

    pub fn root(&self) -> (r: &Model)
        ensures
            *r == self.root_spec(),
    {
        &self.root
    }

    /// The frame's draw: the scene's program, then the model's meshes.
    pub fn draw(&self) -> (r: SceneDraw)
        requires
            self.wf(),
        ensures
            r.program == self.program_spec(),
            model_draws(r.meshes@, self.root_spec().mesh_seq()),
    {
        SceneDraw { program: self.program, meshes: self.root.draw() }
    }

    /// Gives up the model's device objects for deletion; the program is
    /// returned beside them.
    pub fn release(self) -> (r: (u32, ModelResources))
        requires
            self.wf(),
        ensures
            r.0 == self.program_spec(),
            r.1.geometry@.len() == self.root_spec().mesh_seq().len(),
            forall|k: int|
                0 <= k < self.root_spec().mesh_seq().len() ==> (#[trigger] self.root_spec().mesh_seq()[k]).geometry_spec().handle_state()
                    == HandleState::Live(r.1.geometry@[k]),
            r.1.textures@.len() == self.root_spec().cache_spec().entries().len(),
            forall|j: int|
                0 <= j < r.1.textures@.len() ==> r.1.textures@[j] == (#[trigger] self.root_spec().cache_spec().entries()[j]).id,
    {
        let Scene { program, root } = self;
        (program, root.release())
    }
}

} // verus!
