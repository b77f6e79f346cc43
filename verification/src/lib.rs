//! Vertex and index data of single objects, kept as immutable meshes, and the
//! protocol that binds a mesh's vertex buffers to the layouts a pipeline asks for.

pub mod builder;
pub mod compat;
pub mod draw;
pub mod indices;
pub mod mesh;
pub mod order;
pub mod resolve;
mod staging;
pub mod topology;
pub mod vertex;

pub use builder::{
    Access, BufferRequest, BuildEvent, BuildState, BuildStep, MeshBuilder, Properties, Usage,
};
pub use compat::is_compatible;
pub use draw::{Bind, Command, IndexBufferView};
pub use indices::Indices;
pub use mesh::{find_compatible_buffer, Incompatible, IndexBuffer, Mesh, VertexBuffer};
pub use staging::MAX_LAYERS;
pub use topology::{IndexType, Primitive};
pub use vertex::{are_well_formed, is_slice_sorted, Attribute, VertexFormat};
