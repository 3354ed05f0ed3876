//! Translator for a small stack-based virtual-machine language.
//!
//! Source texts are parsed into an intermediate program (an ordered
//! sequence of instructions plus a static-slot high-water mark), and the
//! completed program is lowered to assembly text for a 16-bit,
//! word-addressed target machine.

pub mod assembly;
pub mod machine;
pub mod parse;
pub mod text;
pub mod translate;
pub mod vm_program;
