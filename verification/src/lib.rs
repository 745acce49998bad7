//! Evaluation core of a small expression-based language: a tree-walking
//! interpreter with lexical scoping, closures, destructuring `match`, and a
//! uniform applicative call protocol for built-in and user-defined procedures.
//!
//! The executable data model lives in [`ast`], [`value`], [`env`], [`pattern`]
//! and [`error`]; its mathematical counterpart, a fuel-indexed big-step
//! semantics over spec-level values and environments, lives in [`semantics`].
//! Every evaluator entry point is proved to agree with that semantics, and
//! [`laws`] states the scoping and matching theorems that follow from it.

pub mod ast;
pub mod env;
pub mod error;
pub mod laws;
pub mod pattern;
pub mod semantics;
pub mod strintern;
pub mod value;
