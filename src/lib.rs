//! A bounded Game of Life: a grid of cells with a permanently dead border,
//! the generation rule, and the per-frame controller that decides when the
//! grid advances.

pub mod controller;
pub mod engine;
pub mod grid;
