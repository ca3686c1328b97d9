//! Core logic of a particle shower simulation: the shader sources, the
//! collision records that tie particles of one strip together, the order in
//! which the frame pipeline hands strips from stage to stage, and the choice of
//! what is drawn.

pub mod fshader;
pub mod vshader;
pub mod particle;
pub mod strip;
pub mod pipeline;
pub mod display;
pub mod mesh;
