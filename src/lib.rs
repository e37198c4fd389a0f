//! A small dense linear-algebra engine: matrices and vectors over an abstract
//! scalar, with lazy transposition, dimension-checked arithmetic and exact
//! cofactor-expansion determinants and inverses; beside it, rectangular grid
//! storage and the translation of key presses into camera movements.

pub mod enums;
pub mod event;
pub mod grid;
pub mod matrixified;
pub mod num;
pub mod pair;
pub mod raw_grid;
