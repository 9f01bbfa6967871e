//! Verified core of a small Elm-style terminal UI framework.

pub mod element;
pub mod runner;
pub mod runtime;
pub mod stream;
pub mod subscription;
pub mod terminal;
