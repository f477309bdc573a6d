//! The core of a runtime for writing shaders live: which program is
//! selected, when it is compiled anew, and what the GPU is given to draw
//! with.
//!
//! The library decides and the application carries out. It is handed the
//! configuration that was loaded, the writes that were seen and the outcome
//! of each compilation, and it hands back what is to be done next, the bytes
//! to copy into the uniform buffers, and the pipeline and bind groups to draw
//! with. Whatever it is asked for either succeeds as a whole or changes
//! nothing but the error that is shown.

pub mod name_map;
pub mod programs;
pub mod text;
pub mod uniforms;
