//! Decoding and patching of Game Boy Advance cartridge images.
//!
//! The crate reads the fixed-layout records of an image, unpacks its
//! compressed graphics, renders indexed-colour tiles to RGBA, lists script
//! bytecode as instructions, finds unused space and merges pending patches
//! into an output image with a fresh header checksum.

pub mod api;
pub mod compression;
pub mod error;
pub mod graphics;
pub mod le_bytes;
pub mod patch;
pub mod pointer;
pub mod scripting;
pub mod space_manager;
pub mod state;
pub mod structures;
