//! Entity/collision simulation core of a 2D arcade game engine.
//!
//! The crate provides the pieces a per-frame simulation step is built from:
//! axis-aligned rectangle geometry with a directional collision classifier,
//! a quadtree used as a broad-phase candidate filter, an entity store with an
//! extract/reinsert protocol, a message-based side-effect protocol, a
//! per-state animation/bounding-box cache, and the frame orchestrator that
//! ties them together.  Rendering, windowing and input polling are left to
//! the surrounding program; the simulation works on plain values.

pub mod actor;
pub mod actor_manager;
pub mod collision;
pub mod frame_timer;
pub mod game_view;
pub mod geometry;
pub mod message;
pub mod quadtree;
pub mod score;
pub mod sprite;
pub mod viewport;
