//! Core of a modular real-time simulation host.
//!
//! A frame loop drives a set of modules that can be swapped while the program
//! runs. Every frame the modules change one shared state, one after the other
//! in the order of their registration; part of that state is a scene graph,
//! which a renderer walks later in the same frame.
//!
//! - [`identity`]: the handles that entities go by.
//! - [`tree`] and [`scene`]: the scene graph, its breadth-first walk and the
//!   world transforms derived along it.
//! - [`cache`] and [`texture`]: renderable resources, built once per payload.
//! - [`module`] and [`host`]: the module surface, hot reloading, and the
//!   active set.
//! - [`scheduler`] and [`clock`]: the frame, its cadence and its budget.
//! - [`state`], [`render`] and [`input`]: the shared state and the two
//!   surfaces at its edges.
//!
//! Execution is single-threaded: everything here takes the state by exclusive
//! reference and gives it back before the next call.

pub mod cache;
pub mod clock;
pub mod host;
pub mod identity;
pub mod input;
pub mod module;
pub mod render;
pub mod scene;
pub mod scheduler;
pub mod state;
pub mod texture;
pub mod tree;
