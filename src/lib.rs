//! Derives, from a method that takes `self` by value, a twin method whose
//! receiver is `self: Box<Self>` and which forwards to the first.
//!
//! The library works on a flat stream of lexical tokens (`token`), classifies
//! the positions of a parameter list (`params`), and assembles the twin
//! method (`synth`).
pub mod token;
pub mod params;
pub mod synth;
