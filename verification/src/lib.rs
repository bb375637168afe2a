//! Derives a waveform-viewer display script from the signal declarations of a
//! VHDL architecture and the annotations written in the comments around them.

pub mod builder;
pub mod comment_parser;
pub mod context;
pub mod display_elements;
pub mod file_parser;
pub mod grammar;
pub mod tcl_generator;
pub mod text;
pub mod tokens;
pub mod walker;
