//! Model and mesh resource management for a textured-triangle renderer.
//!
//! The library decides everything that can be decided without a graphics
//! device: how a parsed model becomes interleaved vertex data, which texture
//! files are uploaded (each at most once), how GPU handles are owned and
//! released, and the exact sequence of bindings and draw calls that renders a
//! model. The caller performs the device calls that these values describe.

pub mod engine;
pub mod error;
pub mod geometry;
pub mod mesh;
pub mod model;
pub mod scene;
pub mod texture;
pub mod texture_image;

pub use error::ResourceError;
pub use geometry::{DrawElements, GeometryBuffer, GpuHandles, HandleState, Vertex, VertexAttribute};
pub use texture::{Texture, TextureCache, TextureKind};
pub use mesh::{Mesh, MeshDraw, TextureBinding};
pub use texture_image::{PixelFormat, TextureImage};
pub use model::{Material, Model, ModelPlan, ModelResources, SubMesh, TextureLoad, TextureSlot};
pub use scene::{Scene, SceneDraw};
pub use engine::EngineConfig;
