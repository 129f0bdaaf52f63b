//! Asset-import and scene-composition core of an interactive 3D viewer.
//!
//! The library turns structured import results (meshes, textures, prefabs,
//! skins, animation clips) into live scene entities, computes world-space
//! bounds for entity hierarchies, normalizes a loaded model into a canonical
//! view volume, and coordinates live replacement of models, skyboxes and
//! animation clip sets without leaking entities.

pub mod anim;
pub mod assets;
pub mod bounds;
pub mod cache;
pub mod catalog;
pub mod fit;
pub mod fixed;
pub mod import;
pub mod info;
pub mod scene;
pub mod session;
pub mod text;
pub mod transform;
pub mod vec3;
