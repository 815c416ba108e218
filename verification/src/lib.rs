//! A minimal entity-component-system runtime for a simulate-then-render loop.
//!
//! Entities are opaque identities; all state lives in per-component sparse
//! storages keyed by entity id. Systems declare what they touch, and a
//! dispatcher executes them once per tick in an order consistent with their
//! declared dependencies. Rendering and raw input polling are external
//! collaborators: the library computes the draw calls for a frame and folds
//! axis events into the shared input resource, and the surrounding program
//! performs the actual backend work.

pub mod components;
pub mod dispatcher;
pub mod game;
pub mod laws;
pub mod model;
pub mod storage;
pub mod systems;
pub mod world;
