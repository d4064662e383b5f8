//! Batched instanced rendering: a scratch buffer of per-instance records that
//! is flushed as one instanced draw call whenever it fills up or a session
//! ends, with the pieces around it: glyph layout for bitmap fonts, shader
//! template splicing, and a stack-based state machine for driving an
//! application.

pub mod batch;
pub mod font;
pub mod instancer;
pub mod region;
pub mod shader_template;
pub mod state_machine;
