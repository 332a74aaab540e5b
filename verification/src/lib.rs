//! A toroidal two-dimensional cellular automaton (a Conway's-Game-of-Life
//! variant) with derived per-step statistics and a bounded history of
//! population samples.
//!
//! The automaton itself lives in [`cellular`]; general laws of the stepping
//! rule, the statistics and the history are stated and proved in [`laws`].

pub mod cellular;
pub mod laws;
