//! Engine-agnostic machinery for reading the state of a running game from
//! outside its process: byte-signature scanning, pointer paths, per-tick
//! change watchers and walkers over the engines' own type-information tables.
pub mod bytes;
pub mod error;
pub mod idtech;
pub mod kururin;
pub mod memory;
pub mod pointer;
pub mod rtti;
pub mod signature;
pub mod splits;
pub mod value;
pub mod zdoom;
