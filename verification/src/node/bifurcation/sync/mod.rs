//! Building worked bifurcation nodes whose outputs are collected per side.
pub mod builder;

pub use builder::{make_bifurcation, AddOutput, GraphBuilder, Output};
