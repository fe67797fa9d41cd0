//! Voxel-art scene compiler: turns a parsed voxel file (palette, material
//! table, voxel models, transform graph, layers) into renderable scene data:
//! greedy-meshed surface geometry, material descriptors, and a named node
//! hierarchy, with a bounded region-edit path for in-place mutation.
//!
//! Scalar material channels (roughness, opacity, emission, refraction) are
//! carried as fixed-point thousandths: the value 1000 stands for 1.0.

pub mod edit;
pub mod load;
pub mod material;
pub mod mesh;
pub mod palette;
pub mod scene;
pub mod voxel;

pub use edit::{VoxelModel, VoxelRegion};
pub use load::{
    LayerInfo, LoadedVox, RawLayer, RawModel, VoxDocument, VoxLoader, VoxLoaderError,
    VoxLoaderSettings, VoxelScene,
};
pub use material::MaterialDescriptor;
pub use mesh::{MeshData, OrientedQuad, QuadRect, Vec2u, Vec3i};
pub use palette::{MaterialTag, RawMaterial, Rgba, VoxelElement, VoxelPalette};
pub use scene::{NamedModel, NamedSubasset, NodeTransform, RawSceneNode, VoxelNode};
pub use voxel::{FaceDir, GridView, RawVoxel, VisibleVoxel, Voxel, VoxelGrid};
