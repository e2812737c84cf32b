//! A grid-based falling-sand automaton: a lattice of cells, each empty or
//! holding one particle, advanced one tick at a time under gravity,
//! density-driven displacement, heat, combustion, corrosion and decay.
pub mod particle;
pub mod dice;
pub mod sandbox;
pub mod catalog;
pub mod movement;
pub mod temperature;
pub mod simulation;
pub mod render;
pub mod brush;
