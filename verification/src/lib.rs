//! A verified RV32IMAFC emulator core and the logic around it.
pub mod instruction;
pub mod memory;
pub mod hart;
pub mod loader;
pub mod rv32i;
pub mod io;
pub mod robot;
pub mod runner;
pub mod devices;
pub mod bot;
pub mod protocol;
pub mod racehub;
pub mod frequency;
pub mod laws;
pub mod text;
pub mod portal;
pub mod tui;
pub mod editor;
pub mod mesh;
pub mod isa_laws;
