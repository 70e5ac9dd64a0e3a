//! The logic of a radiance-cascades global-illumination pipeline that runs
//! on the host: the geometry of the cascade hierarchy, the order and the
//! bindings of the passes, exact integer models of the grid algorithms
//! (the jump-flood distance field, the depth pyramid and the voxel grid),
//! and the cascade stack itself with the parts of its kernel handed in.

pub mod arith;
pub mod cascade;
pub mod config;
pub mod frame;
pub mod grid;
pub mod hi_z;
pub mod hi_z_laws;
pub mod input;
pub mod jfa;
pub mod jfa_laws;
pub mod material;
pub mod mesh;
pub mod pingpong;
pub mod pipeline;
pub mod schedule;
pub mod shader;
pub mod stack;
pub mod tangents;
pub mod texture;
pub mod voxel;
pub mod window;
