//! A weekly planner board: a fixed grid of day cells plus two buckets, each an
//! ordered stack of draggable todo items laid out on a character-cell screen.
//!
//! The crate holds the spatial model (rectangles, packed item stacks, the
//! board), the hit test that maps a screen cell to a logical address, the
//! drag-and-drop state machine, and the label formatting rule. Every
//! executable function carries a contract. Verus proves them all but two:
//! the functions of `ident` that draw an identifier and write it out call the
//! `uuid` crate, and their contracts are taken on trust.

pub mod board;
pub mod container;
pub mod drag;
pub mod error;
pub mod geometry;
pub mod grid;
pub mod hit_test;
pub mod ident;
pub mod item;
pub mod label;
pub mod moves;
pub mod render;
