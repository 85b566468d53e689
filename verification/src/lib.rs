//! Core of a small dependently typed language: terms, typing contexts, and the
//! type checker over them, plus the surface parser for its textual syntax.

pub mod lang;
pub mod context;
pub mod eval;
pub mod typing;
pub mod surface;
