//! Retained-mode overlay UI core: an element tree with style resolution,
//! absolute and inline-flow layout, paint-order hit-testing and a per-widget
//! pointer interaction state machine.
//!
//! The tree is an arena of nodes addressed by stable indices; parent, child
//! and focus references are indices into that arena, so mutation through a
//! focus handle is visible through the tree slot and vice versa.
//!
//! Window plumbing, GPU resources, glyph shaping and callback execution are
//! external collaborators: the library computes layout and interaction
//! outcomes, and reports which callbacks fired for the host to run.

pub mod geom;
pub mod style;
pub mod element;
pub mod state;
pub mod layout;
pub mod dispatch;
pub mod laws;
pub mod shaders;
pub mod demo;
