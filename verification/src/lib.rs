//! Decoders for a game-asset container format family: a compressed-stream
//! container with magic-tagged header sections and a four-byte algorithm
//! selector, and a flag-driven multi-file archive whose per-entry record
//! layout is decided by archive-wide format flags and two independent
//! endianness switches. Archives are parsed up front from in-memory bytes;
//! entry names and payloads are resolved lazily, per access.

pub mod bnd4;
pub mod dcx;
pub mod flags;
pub mod io;

pub use bnd4::Bnd4Archive;
pub use bnd4::Bnd4File;
pub use dcx::DcxReader;
