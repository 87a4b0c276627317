//! Decision and motion pipeline of a population of agents, each steered by
//! a small feed-forward neural network, in a bounded tile world that wraps
//! around at its edges.
//!
//! - [`net`]: the neural network, its construction with random weights and
//!   its evaluation.
//! - [`ecs`]: the run control and the frame counters, the records of the
//!   agents, and the systems that make up a frame: the clock advances, the
//!   brains are asked on every frame that is a neural update frame, and the
//!   agents move on every frame by what their brains last asked for.
//! - [`simworld`]: the tiles, their bounds and their generation from noise.
//! - [`gui`]: what the panels that control and inspect the simulation show.
//! - [`scalar`]: what all of these need of a representation of the real
//!   numbers.
//!
//! The pipeline computes with any type that offers the operations of
//! [`scalar::Scalar`]; nothing is assumed of what they compute. Where a
//! contract says which value a function returns, it says so for a
//! representation whose operations are functions of their operands
//! ([`scalar::deterministic`]), in terms of names for their results. The
//! laws on ranges hold of a representation that does not round
//! ([`scalar::exact`]).

pub mod ecs;
pub mod gui;
pub mod net;
pub mod scalar;
pub mod simworld;
