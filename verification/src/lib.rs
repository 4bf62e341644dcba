//! Simulation core for a population of small bouncing on-screen characters
//! ("speakis"): physics integration, wall and pairwise collision resolution,
//! size-based merging, explosion force propagation, and the sprite-state /
//! timer automaton that drives animation and voice events.
//!
//! All world quantities are fixed-point integers: lengths and velocities in
//! milli-units (1000 = one world unit), time in milliseconds, dimensionless
//! coefficients in per-mille (1000 = 1.0). The discrete-step semantics of the
//! simulation (one unit of gravity per tick, `position += velocity` per tick)
//! is kept uniformly in this scale.
//!
//! Rendering, asset loading, window management, input-device polling and the
//! audio backend are external collaborators: the core consumes plain values
//! (cursor position, elapsed time, audio-completion flags) and emits requests
//! (spawn, despawn, voice-play, bounce, merge) through an outbound queue.
//!
//! A frame runs the passes in a fixed order: interaction (`interact`), then
//! gravity, integration, wall collision (`physics`), pairwise collision
//! (`collision`), merging (`merge`), explosions, rotation and window
//! inertia (`physics`), then the animation and timer automata
//! (`animation`, `voice`); finally the request queues (`events`) are
//! drained by the collaborators. `tick` composes the whole frame and
//! states it as one relation. Randomized decisions all consume per-mille
//! draws from `rng`: each randomized system has a deterministic core that
//! takes the draws as arguments, and a driver that supplies fresh ones.

pub mod animation;
pub mod collision;
pub mod components;
pub mod events;
pub mod fx;
pub mod interact;
pub mod merge;
pub mod physics;
pub mod resources;
pub mod rng;
pub mod sprites;
pub mod tick;
pub mod voice;
pub mod world;
