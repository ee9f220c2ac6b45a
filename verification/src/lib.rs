//! The verified core of a point cloud viewer that draws with OpenGL: which
//! GL objects it owns and when they are created, reused and deleted, what a
//! frame uploads and draws, how shader text is prepared for the driver, and
//! the fixed data that context creation and function loading use.
//!
//! The GL calls themselves, the window-system calls and all floating-point
//! camera math are made by the caller, from the plans these functions return.

use vstd::prelude::*;

pub mod gl_loader;
pub mod renderer;
pub mod shader_source;
pub mod vertex_layout;
pub mod wgl;

verus! {

} // verus!
