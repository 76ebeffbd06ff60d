//! Asset-driven scene lifecycle and animation-playback engine.
//!
//! The crate models the control core of a small game runtime: the finite
//! state machine that sequences project loading, scene loading and gameplay;
//! the action pipeline that turns UI intent into scene-transition requests;
//! and the per-entity animation controller that lazily builds a playback
//! graph and reconciles requested against committed clips.  The engine host
//! (asset store, entity hierarchy, renderer, input) stays outside: each tick
//! it hands the functions here plain values and performs the commands they
//! return.

pub mod actions;
pub mod animation;
pub mod entities;
pub mod hierarchy;
pub mod scene_manager;
pub mod schema;
pub mod text;
