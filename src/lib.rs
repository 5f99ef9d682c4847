//! An Intel 8080 toolchain: an instruction model, a byte-level codec, a
//! two-pass assembler and a deterministic machine that executes one
//! instruction per cycle.
pub mod assembler;
pub mod coding;
pub mod instruction;
pub mod machine;
