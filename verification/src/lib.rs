//! A small engine for bodies under gravity.
//!
//! A [`simulation::SimulationContainer`] holds bodies, whether it runs, and when
//! it was last stepped. It is stepped in a conversation with the host, which
//! does the arithmetic on real numbers ([`simulation::Step`]); it is pruned of
//! bodies that have left the region of interest or have become negligible; and
//! it can be made from a description in bytes ([`ingest::ingest`]). Real numbers
//! are held by their binary64 bit patterns ([`scalar::Scalar`]). What holds of
//! every world and every step is proved in [`laws`]. [`render`] paints into a
//! frame of pixels.

pub mod actor;
pub mod clock;
pub mod ingest;
pub mod laws;
pub mod render;
pub mod scalar;
pub mod schedule;
pub mod simulation;
