//! Skeletal animation core: joint hierarchies with bind poses, skin-weight
//! reduction, keyframe clips and a playback state machine; the index side of
//! reading meshes from a scene document; and the small pixel-buffer,
//! flip-book and entity-variable utilities of the engine.

pub mod clip;
pub mod color;
pub mod entity;
pub mod linalg;
pub mod mesh;
pub mod player;
pub mod scene;
pub mod skeleton;
pub mod skin;
pub mod sprite;
