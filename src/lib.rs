//! Rendering-state management for a retained-mode UI toolkit: a stack of
//! render configurations that defers device updates until something is
//! actually drawn, and the pass protocol that lets drawables report that
//! they are not ready yet.

pub mod graphics;
pub mod laws;
pub mod color;
pub mod text;
pub mod event;
pub mod mask;
